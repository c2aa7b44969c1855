//! Identifiers of Git objects, held in a fixed buffer.

use core::cmp::Ordering;
use vstd::prelude::*;
use vstd::slice::*;
use vstd::string::*;
use vstd::utf8::*;

verus! {

/// The largest number of bytes an object id may hold.
pub const MAX_OID_LEN: usize = 40;

/// The number of characters kept by the short form of a SHA.
pub const SHORT_LEN: usize = 16;

/// Why a string is not an object id.
#[derive(Debug, PartialEq, Eq, Structural)]
pub enum OidParseError {
    TooLong,
    Empty,
}

/// Unique identity of any Git object (commit, tree, blob, tag).
///
/// The text is not checked to be a valid hash.
#[derive(Debug, Copy, Clone, Eq, Ord, Hash)]
pub struct GitOid {
    bytes: [u8; 40],
    len: usize,
}

impl View for GitOid {
    type V = Seq<char>;

    /// The text of the id.
    closed spec fn view(&self) -> Seq<char> {
        decode_utf8(self.spec_bytes())
    }
}

impl GitOid {
    /// The bytes of the id: the part of the buffer that is in use.
    pub closed spec fn spec_bytes(&self) -> Seq<u8> {
        self.bytes@.subrange(0, self.len as int)
    }

    /// What holds of every id: it is not empty, it fits the buffer, it is
    /// text, and the unused tail of the buffer is zero.
    #[verifier::type_invariant]
    pub closed spec fn wf(&self) -> bool {
        &&& 0 < self.len <= 40
        &&& valid_utf8(self.bytes@.subrange(0, self.len as int))
        &&& forall|i: int| self.len <= i < 40 ==> self.bytes@[i] == 0u8
    }

    /// Reads an object id from `s`, which must hold between 1 and 40 bytes:
    /// one that is empty is refused as `Empty`, one that is longer as
    /// `TooLong`. The bytes are kept as they are, whatever they spell.
    pub fn parse(s: &str) -> (res: Result<GitOid, OidParseError>)
        ensures
            s.spec_bytes().len() == 0 <==> res == Err::<GitOid, OidParseError>(OidParseError::Empty),
            s.spec_bytes().len() > 40 <==> res == Err::<GitOid, OidParseError>(OidParseError::TooLong),
            0 < s.spec_bytes().len() <= 40 <==> res is Ok,
            res matches Ok(oid) ==> oid.wf() && oid@ == s@ && oid.spec_bytes() == s.spec_bytes(),
    {
        broadcast use encode_utf8_valid_utf8, encode_utf8_decode_utf8;
        let src = s.as_bytes();
        let n = src.len();
        if n == 0 {
            return Err(OidParseError::Empty);
        }
        if n > MAX_OID_LEN {
            return Err(OidParseError::TooLong);
        }
        let mut out = [0u8; 40];
        let mut i: usize = 0;
        while i < n
            invariant
                i <= n <= 40,
                n == src@.len(),
                forall|j: int| 0 <= j < i ==> out@[j] == src@[j],
                forall|j: int| i <= j < 40 ==> out@[j] == 0u8,
            decreases n - i,
        {
            out[i] = src[i];
            i += 1;
        }
        assert(out@.subrange(0, n as int) =~= src@);
        Ok(GitOid { len: n, bytes: out })
    }

    /// The text of the id, as it was given.
    pub fn as_str(&self) -> (res: &str)
        ensures
            res@ == self@,
            res.spec_bytes() == self.spec_bytes(),
    {
        proof {
            use_type_invariant(self);
        }
        broadcast use encode_utf8_decode_utf8;
        let used = slice_subrange(self.bytes.as_slice(), 0, self.len);
        let text = str_from_utf8(used);
        text.unwrap()
    }

    /// The text of the id as an owned string: no case is changed and
    /// nothing is cut off.
    pub fn to_string(&self) -> (res: String)
        ensures
            res@ == self@,
    {
        self.as_str().to_owned()
    }
}

/// Whether `k` is the first place at which `a` and `b` differ.
pub open spec fn first_difference(a: Seq<u8>, b: Seq<u8>, k: int) -> bool {
    &&& 0 <= k < a.len()
    &&& k < b.len()
    &&& a[k] != b[k]
    &&& forall|j: int| 0 <= j < k ==> a[j] == b[j]
}

/// Whether `a` and `b` hold the same bytes as far as the shorter of them
/// reaches.
pub open spec fn agree(a: Seq<u8>, b: Seq<u8>) -> bool {
    forall|j: int| 0 <= j < a.len() && j < b.len() ==> a[j] == b[j]
}

impl GitOid {
    /// The bytes of `self` and of `other` at the first place at which the
    /// two differ; `None` where they are the same as far as the shorter of
    /// them reaches.
    fn first_unequal(&self, other: &GitOid) -> (res: Option<(u8, u8)>)
        ensures
            res is None <==> agree(self.spec_bytes(), other.spec_bytes()),
            res matches Some((x, y)) ==> exists|k: int|
                first_difference(self.spec_bytes(), other.spec_bytes(), k)
                    && self.spec_bytes()[k] == x && other.spec_bytes()[k] == y,
    {
        proof {
            use_type_invariant(self);
            use_type_invariant(other);
        }
        let n = if self.len < other.len {
            self.len
        } else {
            other.len
        };
        let mut i: usize = 0;
        while i < n
            invariant
                i <= n <= 40,
                n <= self.len <= 40,
                n <= other.len <= 40,
                n == self.len || n == other.len,
                forall|j: int| 0 <= j < i ==> self.bytes@[j] == other.bytes@[j],
            decreases n - i,
        {
            if self.bytes[i] != other.bytes[i] {
                assert(first_difference(self.spec_bytes(), other.spec_bytes(), i as int));
                return Some((self.bytes[i], other.bytes[i]));
            }
            i += 1;
        }
        None
    }
}

impl PartialEq for GitOid {
    fn eq(&self, other: &Self) -> (res: bool) {
        proof {
            use_type_invariant(self);
            use_type_invariant(other);
        }
        let same = self.len == other.len && self.first_unequal(other).is_none();
        assert(same ==> self.spec_bytes() =~= other.spec_bytes());
        same
    }
}

impl vstd::std_specs::cmp::PartialEqSpecImpl for GitOid {
    open spec fn obeys_eq_spec() -> bool {
        true
    }

    /// Two ids are equal when they hold the same bytes.
    open spec fn eq_spec(&self, other: &GitOid) -> bool {
        self.spec_bytes() == other.spec_bytes()
    }
}

/// Whether `a` is the start of `b`, and shorter than `b`.
pub open spec fn is_proper_prefix(a: Seq<u8>, b: Seq<u8>) -> bool {
    a.len() < b.len() && agree(a, b)
}

/// Whether the bytes `a` come before the bytes `b`, byte by byte: `a` has
/// the smaller byte at the first place at which the two differ, or is the
/// start of `b`.
pub open spec fn comes_before(a: Seq<u8>, b: Seq<u8>) -> bool {
    ||| is_proper_prefix(a, b)
    ||| exists|k: int| first_difference(a, b, k) && a[k] < b[k]
}

/// How the bytes `a` stand to the bytes `b`.
pub open spec fn order_of(a: Seq<u8>, b: Seq<u8>) -> Ordering {
    if a == b {
        Ordering::Equal
    } else if comes_before(a, b) {
        Ordering::Less
    } else {
        Ordering::Greater
    }
}

/// Two sequences differ first at one place only.
proof fn lemma_first_difference_unique(a: Seq<u8>, b: Seq<u8>, k1: int, k2: int)
    requires
        first_difference(a, b, k1),
        first_difference(a, b, k2),
    ensures
        k1 == k2,
{
}

impl PartialOrd for GitOid {
    fn partial_cmp(&self, other: &Self) -> (res: Option<Ordering>) {
        proof {
            use_type_invariant(self);
            use_type_invariant(other);
        }
        match self.first_unequal(other) {
            Some((x, y)) => {
                proof {
                    let a = self.spec_bytes();
                    let b = other.spec_bytes();
                    let k = choose|k: int| first_difference(a, b, k) && a[k] == x && b[k] == y;
                    assert forall|j: int| first_difference(a, b, j) implies j == k by {
                        lemma_first_difference_unique(a, b, j, k);
                    }
                    assert(!agree(a, b));
                }
                if x < y {
                    Some(Ordering::Less)
                } else {
                    Some(Ordering::Greater)
                }
            },
            None => {
                proof {
                    let a = self.spec_bytes();
                    let b = other.spec_bytes();
                    assert(a.len() == self.len);
                    assert(b.len() == other.len);
                    assert(forall|k: int| !first_difference(a, b, k));
                    if self.len == other.len {
                        assert(a =~= b);
                    }
                }
                if self.len < other.len {
                    Some(Ordering::Less)
                } else if self.len > other.len {
                    Some(Ordering::Greater)
                } else {
                    Some(Ordering::Equal)
                }
            },
        }
    }
}

impl vstd::std_specs::cmp::PartialOrdSpecImpl for GitOid {
    open spec fn obeys_partial_cmp_spec() -> bool {
        true
    }

    /// Ids are ordered byte by byte, a shorter one before those that it
    /// starts.
    open spec fn partial_cmp_spec(&self, other: &GitOid) -> Option<Ordering> {
        Some(order_of(self.spec_bytes(), other.spec_bytes()))
    }
}

impl core::str::FromStr for GitOid {
    type Err = OidParseError;

    fn from_str(s: &str) -> (res: Result<Self, Self::Err>)
        ensures
            s.spec_bytes().len() == 0 <==> res == Err::<GitOid, OidParseError>(OidParseError::Empty),
            s.spec_bytes().len() > 40 <==> res == Err::<GitOid, OidParseError>(OidParseError::TooLong),
            0 < s.spec_bytes().len() <= 40 <==> res is Ok,
            res matches Ok(oid) ==> oid.wf() && oid@ == s@ && oid.spec_bytes() == s.spec_bytes(),
    {
        GitOid::parse(s)
    }
}

impl OidParseError {
    /// The message that describes the error.
    pub fn to_string(&self) -> (res: String)
        ensures
            self == OidParseError::TooLong ==> res@ == "Object ID can be at most 40 hex characters"@,
            self == OidParseError::Empty ==> res@ == "Object ID cannot be parsed from empty string"@,
    {
        match self {
            OidParseError::TooLong => "Object ID can be at most 40 hex characters".to_owned(),
            OidParseError::Empty => "Object ID cannot be parsed from empty string".to_owned(),
        }
    }
}

/// A complete Git SHA: the hexadecimal text that names a commit.
#[derive(Debug, Copy, Clone, Eq, Ord, Hash)]
pub struct GitSha(GitOid);

impl View for GitSha {
    type V = Seq<char>;

    /// The text of the SHA.
    closed spec fn view(&self) -> Seq<char> {
        self.0@
    }
}

/// The first `limit` items of `text`, or all of it where it is shorter.
pub open spec fn truncated(text: Seq<char>, limit: nat) -> Seq<char> {
    if text.len() <= limit {
        text
    } else {
        text.subrange(0, limit as int)
    }
}

impl GitSha {
    /// The object id that the SHA wraps.
    pub closed spec fn oid(&self) -> GitOid {
        self.0
    }

    /// The SHA that wraps `oid`.
    pub closed spec fn of(oid: GitOid) -> GitSha {
        GitSha(oid)
    }

    /// The SHA cut down to its first 16 characters; one that is shorter is
    /// given whole.
    pub fn to_short_string(&self) -> (res: String)
        ensures
            res@ == truncated(self@, 16),
    {
        let text = self.0.as_str();
        let count = text.unicode_len();
        let keep = if count < SHORT_LEN { count } else { SHORT_LEN };
        let head = text.substring_char(0, keep);
        head.to_owned()
    }

    /// The text of the SHA as an owned string.
    pub fn to_string(&self) -> (res: String)
        ensures
            res@ == self@,
    {
        self.0.to_string()
    }

    /// Reads a SHA from `s`, under the rules of [`GitOid::parse`].
    pub fn parse(s: &str) -> (res: Result<GitSha, OidParseError>)
        ensures
            s.spec_bytes().len() == 0 <==> res == Err::<GitSha, OidParseError>(OidParseError::Empty),
            s.spec_bytes().len() > 40 <==> res == Err::<GitSha, OidParseError>(OidParseError::TooLong),
            0 < s.spec_bytes().len() <= 40 <==> res is Ok,
            res matches Ok(sha) ==> sha.oid().wf() && sha@ == s@,
    {
        match GitOid::parse(s) {
            Ok(oid) => Ok(GitSha(oid)),
            Err(e) => Err(e),
        }
    }
}

impl PartialEq for GitSha {
    fn eq(&self, other: &Self) -> (res: bool) {
        self.0 == other.0
    }
}

impl vstd::std_specs::cmp::PartialEqSpecImpl for GitSha {
    open spec fn obeys_eq_spec() -> bool {
        true
    }

    /// Two SHAs are equal when their object ids are.
    open spec fn eq_spec(&self, other: &GitSha) -> bool {
        self.oid().spec_bytes() == other.oid().spec_bytes()
    }
}

impl PartialOrd for GitSha {
    fn partial_cmp(&self, other: &Self) -> (res: Option<Ordering>) {
        self.0.partial_cmp(&other.0)
    }
}

impl vstd::std_specs::cmp::PartialOrdSpecImpl for GitSha {
    open spec fn obeys_partial_cmp_spec() -> bool {
        true
    }

    /// SHAs are ordered as their object ids are.
    open spec fn partial_cmp_spec(&self, other: &GitSha) -> Option<Ordering> {
        Some(order_of(self.oid().spec_bytes(), other.oid().spec_bytes()))
    }
}

impl core::str::FromStr for GitSha {
    type Err = OidParseError;

    fn from_str(value: &str) -> (res: Result<Self, Self::Err>)
        ensures
            value.spec_bytes().len() == 0 <==> res == Err::<GitSha, OidParseError>(
                OidParseError::Empty,
            ),
            value.spec_bytes().len() > 40 <==> res == Err::<GitSha, OidParseError>(
                OidParseError::TooLong,
            ),
            0 < value.spec_bytes().len() <= 40 <==> res is Ok,
            res matches Ok(sha) ==> sha.oid().wf() && sha@ == value@,
    {
        GitSha::parse(value)
    }
}

impl From<GitSha> for GitOid {
    fn from(value: GitSha) -> (res: GitOid)
        ensures
            res == value.oid(),
            res@ == value@,
    {
        value.0
    }
}

impl vstd::std_specs::convert::FromSpecImpl<GitSha> for GitOid {
    open spec fn obeys_from_spec() -> bool {
        true
    }

    open spec fn from_spec(value: GitSha) -> GitOid {
        value.oid()
    }
}

impl From<GitOid> for GitSha {
    fn from(value: GitOid) -> (res: GitSha)
        ensures
            res.oid() == value,
            res@ == value@,
    {
        GitSha(value)
    }
}

impl vstd::std_specs::convert::FromSpecImpl<GitOid> for GitSha {
    open spec fn obeys_from_spec() -> bool {
        true
    }

    open spec fn from_spec(value: GitOid) -> GitSha {
        GitSha::of(value)
    }
}

/// `core::str::from_utf8`: the bytes are accepted exactly when they are
/// UTF-8, and the text that comes back is made of those bytes.
#[verifier::external_body]
fn str_from_utf8(bytes: &[u8]) -> (res: Option<&str>)
    ensures
        res is Some <==> valid_utf8(bytes@),
        res matches Some(text) ==> text.spec_bytes() == bytes@,
{
    core::str::from_utf8(bytes).ok()
}

/// An id holds at least one byte and at most 40.
pub proof fn lemma_oid_length(a: GitOid)
    requires
        a.wf(),
    ensures
        0 < a.spec_bytes().len() <= 40,
        a@.len() <= a.spec_bytes().len(),
        a@ == decode_utf8(a.spec_bytes()),
        a.spec_bytes() == encode_utf8(a@),
{
    broadcast use decode_utf8_encode_utf8;
    lemma_decoded_is_no_longer(a.spec_bytes());
}

/// Text holds no more characters than it has bytes.
proof fn lemma_decoded_is_no_longer(bytes: Seq<u8>)
    requires
        valid_utf8(bytes),
    ensures
        decode_utf8(bytes).len() <= bytes.len(),
    decreases bytes.len(),
{
    if bytes.len() > 0 {
        lemma_decoded_is_no_longer(pop_first_scalar(bytes));
    }
}

/// A SHA made of an object id wraps that id, and the SHA made of the id
/// that a SHA wraps is that SHA.
pub proof fn lemma_sha_wraps(oid: GitOid, sha: GitSha)
    ensures
        GitSha::of(oid).oid() == oid,
        GitSha::of(oid)@ == oid@,
        GitSha::of(sha.oid()) == sha,
        sha@ == sha.oid()@,
{
}

/// Two ids are equal exactly when their texts are.
pub proof fn lemma_oid_equal_iff_same_text(a: GitOid, b: GitOid)
    requires
        a.wf(),
        b.wf(),
    ensures
        a == b <==> a@ == b@,
        a == b <==> a.spec_bytes() == b.spec_bytes(),
{
    broadcast use decode_utf8_encode_utf8;
    if a@ == b@ {
        assert(encode_utf8(decode_utf8(b.spec_bytes())) == b.spec_bytes());
    }
    if a.spec_bytes() == b.spec_bytes() {
        assert forall|i: int| 0 <= i < 40 implies a.bytes[i] == b.bytes[i] by {
            if i < a.len {
                assert(b.bytes@[i] == b.spec_bytes()[i]);
            }
        }
        assert(a.bytes =~= b.bytes);
    }
}

} // verus!
