//! Principals as byte strings, with the text codec of the `candid` crate.
use vstd::prelude::*;

verus! {

/// Longest byte string a principal can hold.
pub const MAX_PRINCIPAL_LEN: usize = 29;

/// A generic Internet Computer identifier: a byte string of at most
/// `MAX_PRINCIPAL_LEN` bytes.
#[derive(Debug)]
pub struct Principal {
    bytes: Vec<u8>,
}

impl View for Principal {
    type V = Seq<u8>;

    closed spec fn view(&self) -> Seq<u8> {
        self.bytes@
    }
}

/// The text form that `candid::Principal::to_text` gives to a principal with
/// these bytes (base32 of a CRC32 checksum followed by the bytes, grouped by
/// dashes).
pub uninterp spec fn spec_principal_text(bytes: Seq<u8>) -> Seq<char>;

/// What `candid::Principal::from_text` gives for this text: the bytes of the
/// principal, or the error's message.
pub uninterp spec fn spec_principal_from_text(text: Seq<char>) -> Result<Seq<u8>, Seq<char>>;

/// The bytes of `candid::Principal::self_authenticating(public_key)`.
pub uninterp spec fn spec_self_authenticating(public_key: Seq<u8>) -> Seq<u8>;

/// `candid::Principal::from_text` accepts `text` and gives these bytes.
pub open spec fn parses_to(text: Seq<char>, bytes: Seq<u8>) -> bool {
    spec_principal_from_text(text) == Ok::<Seq<u8>, Seq<char>>(bytes)
}

/// ASCII lower-casing of a text (`str::to_ascii_lowercase`).
pub open spec fn ascii_lowercase(text: Seq<char>) -> Seq<char> {
    text.map_values(|c: char| if 'A' <= c && c <= 'Z' { ((c as u32) + 32) as char } else { c })
}

/// Principals are ordered as `candid::Principal`'s derived `Ord` orders them:
/// first by length, then byte by byte.
pub open spec fn principal_lt(a: Seq<u8>, b: Seq<u8>) -> bool {
    ||| a.len() < b.len()
    ||| (a.len() == b.len() && bytes_lt(a, b))
}

/// `a` is below `b` at their first differing position.
pub open spec fn bytes_lt(a: Seq<u8>, b: Seq<u8>) -> bool {
    exists|i: int|
        0 <= i < a.len() && i < b.len() && a[i] < b[i] && #[trigger] a.take(i) == b.take(i)
}

/// `s` is strictly increasing in principal order.
pub open spec fn strictly_sorted(s: Seq<Seq<u8>>) -> bool {
    forall|i: int, j: int| 0 <= i < j < s.len() ==> principal_lt(#[trigger] s[i], #[trigger] s[j])
}

pub proof fn lemma_lt_irreflexive(a: Seq<u8>)
    ensures
        !principal_lt(a, a),
{
}

pub proof fn lemma_lt_asymmetric(a: Seq<u8>, b: Seq<u8>)
    requires
        principal_lt(a, b),
    ensures
        !principal_lt(b, a),
{
    if a.len() == b.len() && bytes_lt(a, b) && bytes_lt(b, a) {
        let i = choose|i: int|
            0 <= i < a.len() && i < b.len() && a[i] < b[i] && #[trigger] a.take(i) == b.take(i);
        let j = choose|j: int|
            0 <= j < b.len() && j < a.len() && b[j] < a[j] && #[trigger] b.take(j) == a.take(j);
        if i < j {
            assert(b.take(j)[i] == a.take(j)[i]);
        } else if j < i {
            assert(a.take(i)[j] == b.take(i)[j]);
        }
    }
}

pub proof fn lemma_lt_transitive(a: Seq<u8>, b: Seq<u8>, c: Seq<u8>)
    requires
        principal_lt(a, b),
        principal_lt(b, c),
    ensures
        principal_lt(a, c),
{
    if a.len() == b.len() && b.len() == c.len() {
        let i = choose|i: int|
            0 <= i < a.len() && i < b.len() && a[i] < b[i] && #[trigger] a.take(i) == b.take(i);
        let j = choose|j: int|
            0 <= j < b.len() && j < c.len() && b[j] < c[j] && #[trigger] b.take(j) == c.take(j);
        let k = if i < j { i } else { j };
        assert forall|m: int| 0 <= m < k implies a.take(k)[m] == c.take(k)[m] by {
            assert(a.take(i)[m] == b.take(i)[m]);
            assert(b.take(j)[m] == c.take(j)[m]);
        }
        assert(a.take(k) =~= c.take(k));
        if i < j {
            assert(b.take(j)[i] == c.take(j)[i]);
        } else if j < i {
            assert(a.take(i)[j] == b.take(i)[j]);
        }
        assert(a[k] < c[k]);
    }
}

pub proof fn lemma_lt_total(a: Seq<u8>, b: Seq<u8>)
    requires
        a != b,
    ensures
        principal_lt(a, b) || principal_lt(b, a),
{
    if a.len() == b.len() {
        assert(!(a =~= b));
        let d = choose|d: int| 0 <= d < a.len() && a[d] != b[d];
        lemma_first_difference(a, b, d);
    }
}

proof fn lemma_first_difference(a: Seq<u8>, b: Seq<u8>, d: int)
    requires
        a.len() == b.len(),
        0 <= d < a.len(),
        a[d] != b[d],
    ensures
        bytes_lt(a, b) || bytes_lt(b, a),
    decreases d,
{
    if a.take(d) =~= b.take(d) {
        if a[d] < b[d] {
            assert(bytes_lt(a, b));
        } else {
            assert(b.take(d) == a.take(d));
            assert(bytes_lt(b, a));
        }
    } else {
        let e = choose|e: int| 0 <= e < d && a.take(d)[e] != b.take(d)[e];
        lemma_first_difference(a, b, e);
    }
}

impl Principal {
    #[verifier::type_invariant]
    spec fn fits(self) -> bool {
        self.bytes.len() <= MAX_PRINCIPAL_LEN
    }

    /// The number of bytes of the principal; never more than
    /// `MAX_PRINCIPAL_LEN`.
    pub fn len(&self) -> (r: usize)
        ensures
            r == self@.len(),
            r <= MAX_PRINCIPAL_LEN,
    {
        proof {
            use_type_invariant(self);
        }
        self.bytes.len()
    }

    /// The principal's bytes.
    pub fn as_slice(&self) -> (r: &[u8])
        ensures
            r@ == self@,
    {
        self.bytes.as_slice()
    }

    /// The principal made of these bytes, or `None` where there are more than
    /// `MAX_PRINCIPAL_LEN` of them.
    pub fn try_from_slice(bytes: &[u8]) -> (r: Option<Principal>)
        ensures
            r is Some <==> bytes@.len() <= MAX_PRINCIPAL_LEN,
            r matches Some(p) ==> p@ == bytes@,
    {
        if bytes.len() > MAX_PRINCIPAL_LEN {
            return None;
        }
        let mut v: Vec<u8> = Vec::new();
        let mut i: usize = 0;
        while i < bytes.len()
            invariant
                i <= bytes@.len() <= MAX_PRINCIPAL_LEN,
                v@ == bytes@.take(i as int),
            decreases bytes@.len() - i,
        {
            v.push(bytes[i]);
            i = i + 1;
            assert(v@ =~= bytes@.take(i as int));
        }
        assert(bytes@.take(i as int) =~= bytes@);
        Some(Principal { bytes: v })
    }

    /// The principal made of these bytes (`candid::Principal::from_slice`,
    /// which panics on more than `MAX_PRINCIPAL_LEN` bytes).
    pub fn from_slice(bytes: &[u8]) -> (r: Principal)
        requires
            bytes@.len() <= MAX_PRINCIPAL_LEN,
        ensures
            r@ == bytes@,
    {
        Self::try_from_slice(bytes).unwrap()
    }

    /// The anonymous principal: the single tag byte 4.
    pub fn anonymous() -> (r: Principal)
        ensures
            r@ == seq![4u8],
    {
        let mut v: Vec<u8> = Vec::new();
        v.push(4u8);
        Principal { bytes: v }
    }

    /// The management canister's principal: no bytes at all.
    pub fn management_canister() -> (r: Principal)
        ensures
            r@ == Seq::<u8>::empty(),
    {
        Principal { bytes: Vec::new() }
    }

    /// A copy of this principal.
    pub fn duplicate(&self) -> (r: Principal)
        ensures
            r@ == self@,
    {
        proof {
            use_type_invariant(self);
        }
        let v = self.bytes.clone();
        assert(v@ =~= self.bytes@);
        Principal { bytes: v }
    }

    /// `self` and `other` are the same principal.
    pub fn same_as(&self, other: &Principal) -> (r: bool)
        ensures
            r == (self@ == other@),
    {
        if self.bytes.len() != other.bytes.len() {
            return false;
        }
        let mut i: usize = 0;
        while i < self.bytes.len()
            invariant
                self.bytes@.len() == other.bytes@.len(),
                i <= self.bytes@.len(),
                self.bytes@.take(i as int) =~= other.bytes@.take(i as int),
            decreases self.bytes@.len() - i,
        {
            if self.bytes[i] != other.bytes[i] {
                return false;
            }
            i = i + 1;
            assert(self.bytes@.take(i as int) =~= other.bytes@.take(i as int));
        }
        assert(self.bytes@.take(i as int) =~= self.bytes@);
        assert(other.bytes@.take(i as int) =~= other.bytes@);
        true
    }

    /// `self` comes before `other` in principal order.
    pub fn less_than(&self, other: &Principal) -> (r: bool)
        ensures
            r == principal_lt(self@, other@),
    {
        if self.bytes.len() != other.bytes.len() {
            return self.bytes.len() < other.bytes.len();
        }
        let mut i: usize = 0;
        while i < self.bytes.len()
            invariant
                self.bytes@.len() == other.bytes@.len(),
                i <= self.bytes@.len(),
                self.bytes@.take(i as int) =~= other.bytes@.take(i as int),
            decreases self.bytes@.len() - i,
        {
            if self.bytes[i] != other.bytes[i] {
                let lt = self.bytes[i] < other.bytes[i];
                proof {
                    if lt {
                        assert(bytes_lt(self@, other@));
                    } else {
                        assert(other.bytes@.take(i as int) == self.bytes@.take(i as int));
                        assert(bytes_lt(other@, self@));
                        lemma_lt_asymmetric(other@, self@);
                    }
                }
                return lt;
            }
            i = i + 1;
            assert(self.bytes@.take(i as int) =~= other.bytes@.take(i as int));
        }
        assert(self.bytes@.take(i as int) =~= self.bytes@);
        assert(other.bytes@.take(i as int) =~= other.bytes@);
        false
    }

    /// Parses the text form of a principal (`candid::Principal::from_text`);
    /// the error is the message of the parse error. Text is parsed without
    /// regard to case, and a parsed principal prints as the lower-cased text.
    pub fn from_text(text: &str) -> (r: Result<Principal, String>)
        ensures
            r matches Ok(p) ==> spec_principal_from_text(text@) == Ok::<Seq<u8>, Seq<char>>(p@),
            r matches Ok(p) ==> spec_principal_text(p@) == ascii_lowercase(text@),
            r matches Err(e) ==> spec_principal_from_text(text@) == Err::<Seq<u8>, Seq<char>>(e@),
    {
        match candid_from_text(text) {
            Ok(bytes) => Ok(Principal { bytes }),
            Err(e) => Err(e),
        }
    }

    /// The text form of the principal (`candid::Principal::to_text`);
    /// parsing it gives the principal back.
    pub fn to_text(&self) -> (r: String)
        ensures
            r@ == spec_principal_text(self@),
            parses_to(r@, self@),
    {
        proof {
            use_type_invariant(self);
        }
        candid_to_text(self.bytes.as_slice())
    }

    /// The self-authenticating principal of a public key
    /// (`candid::Principal::self_authenticating`).
    pub fn self_authenticating(public_key: &[u8]) -> (r: Principal)
        ensures
            r@ == spec_self_authenticating(public_key@),
    {
        let bytes = candid_self_authenticating(public_key);
        Principal { bytes }
    }
}

/// Calls `candid::Principal::from_text`. The source builds the result with
/// `try_from_slice` after checking that at most 29 bytes were decoded, and
/// returns it only when its own text form equals the ASCII lower-cased
/// input; this is what the contract claims beside the named result.
#[verifier::external_body]
fn candid_from_text(text: &str) -> (r: Result<Vec<u8>, String>)
    ensures
        r is Ok ==> spec_principal_from_text(text@) == Ok::<Seq<u8>, Seq<char>>(r->Ok_0@),
        r is Ok ==> r->Ok_0@.len() <= MAX_PRINCIPAL_LEN,
        r is Ok ==> spec_principal_text(r->Ok_0@) == ascii_lowercase(text@),
        r is Err ==> spec_principal_from_text(text@) == Err::<Seq<u8>, Seq<char>>(r->Err_0@),
{
    match candid::Principal::from_text(text) {
        Ok(p) => Ok(p.as_slice().to_vec()),
        Err(e) => Err(e.to_string()),
    }
}

/// Calls `candid::Principal::to_text` on the principal built from these
/// bytes (at most 29, so `from_slice` does not panic); the contract names its
/// result, and claims what the source shows of `from_text` on it: the text
/// is the lower-case base32 of the CRC32 checksum and the bytes, grouped by
/// dashes, which `from_text` decodes, checks and accepts, giving the bytes
/// back.
#[verifier::external_body]
fn candid_to_text(bytes: &[u8]) -> (r: String)
    requires
        bytes@.len() <= MAX_PRINCIPAL_LEN,
    ensures
        r@ == spec_principal_text(bytes@),
        parses_to(r@, bytes@),
{
    candid::Principal::from_slice(bytes).to_text()
}

/// Calls `candid::Principal::self_authenticating`, which hashes the key with
/// SHA-224 and appends the tag byte 2, giving 29 bytes; the contract names
/// the bytes and states their length.
#[verifier::external_body]
fn candid_self_authenticating(public_key: &[u8]) -> (r: Vec<u8>)
    ensures
        r@ == spec_self_authenticating(public_key@),
        r@.len() == MAX_PRINCIPAL_LEN,
{
    candid::Principal::self_authenticating(public_key).as_slice().to_vec()
}

} // verus!
