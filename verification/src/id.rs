//! Subscription ids: random version 4 UUIDs in text form, and their passage
//! to and from JSON-RPC ids.

use vstd::prelude::*;
use vstd::string::*;
use crate::error::Error;
use crate::rpc::{Id, IdView};
use crate::text::{decimal, decimal_string};

verus! {

/// The sixteen hexadecimal digits in order, in lower case.
pub open spec fn hex_digits() -> Seq<char> {
    "0123456789abcdef"@
}

/// Two lower-case hexadecimal digits for each byte, the high half first.
pub open spec fn hex_text(bytes: Seq<u8>) -> Seq<char> {
    Seq::new(
        2 * bytes.len(),
        |i: int|
            hex_digits()[if i % 2 == 0 {
                bytes[i / 2] as int / 16
            } else {
                bytes[i / 2] as int % 16
            }],
    )
}

/// `bytes` with the version set to 4 (random) and the variant to RFC 4122.
pub open spec fn with_v4_marks(bytes: Seq<u8>) -> Seq<u8> {
    bytes.update(6, (bytes[6] & 0x0f) | 0x40).update(8, (bytes[8] & 0x3f) | 0x80)
}

/// The hyphenated text of the version 4 UUID made of sixteen bytes: groups of
/// 4, 2, 2, 2 and 6 bytes in lower-case hexadecimal.
pub open spec fn uuid_v4_text(bytes: Seq<u8>) -> Seq<char> {
    let b = with_v4_marks(bytes);
    hex_text(b.subrange(0, 4)) + seq!['-'] + hex_text(b.subrange(4, 6)) + seq!['-'] + hex_text(
        b.subrange(6, 8),
    ) + seq!['-'] + hex_text(b.subrange(8, 10)) + seq!['-'] + hex_text(b.subrange(10, 16))
}

/// `text` is the text of some version 4 UUID.
pub open spec fn is_uuid_v4_text(text: Seq<char>) -> bool {
    exists|bytes: Seq<u8>| bytes.len() == 16 && text == #[trigger] uuid_v4_text(bytes)
}

/// The JSON-RPC id that carries the subscription id `text`.
pub open spec fn rpc_id_of(text: Seq<char>) -> IdView {
    IdView::Str(text)
}

/// The text of the subscription id that a JSON-RPC id stands for, if any: a
/// string as it is, a number in decimal, and nothing for an absent id.
pub open spec fn subscription_id_of(id: IdView) -> Option<Seq<char>> {
    match id {
        IdView::Str(s) => Some(s),
        IdView::Num(n) => Some(decimal(n as nat)),
        IdView::Absent => None,
    }
}

/// Sixteen bytes from the operating system's source of randomness, through
/// `getrandom::getrandom`. Nothing is claimed of the bytes. Where the source
/// fails the process ends: `expect` panics on the error that `getrandom`
/// returns.
#[verifier::external_body]
fn random_bytes() -> (bytes: [u8; 16]) {
    let mut bytes: [u8; 16] = [0; 16];
    getrandom::getrandom(&mut bytes).expect("RNG failure!");
    bytes
}

/// The text of the UUID that `uuid::Builder` makes of `bytes` once the
/// variant is set to RFC 4122 and the version to 4. `set_variant` rewrites the
/// two high bits of byte 8, `set_version` the high half of byte 6, and
/// `Uuid`'s `Display` writes the bytes hyphenated in lower-case hexadecimal.
#[verifier::external_body]
fn uuid_v4_string(bytes: [u8; 16]) -> (text: String)
    ensures
        text@ == uuid_v4_text(bytes@),
{
    uuid::Builder::from_bytes(bytes)
        .set_variant(uuid::Variant::RFC4122)
        .set_version(uuid::Version::Random)
        .build()
        .to_string()
}

/// The id of a subscription. Two ids are equal when their texts are.
#[derive(Debug, PartialEq, Eq, Hash)]
pub struct SubscriptionId(String);

impl View for SubscriptionId {
    type V = Seq<char>;

    closed spec fn view(&self) -> Seq<char> {
        self.0@
    }
}

impl Clone for SubscriptionId {
    fn clone(&self) -> (id: SubscriptionId)
        ensures
            id == *self,
    {
        SubscriptionId(self.0.clone())
    }
}

impl Default for SubscriptionId {
    /// A fresh random id: see [`SubscriptionId::new_random`].
    fn default() -> (id: SubscriptionId)
        ensures
            is_uuid_v4_text(id@),
    {
        SubscriptionId::new_random()
    }
}

impl SubscriptionId {
    /// A fresh id: the text of a version 4 UUID made of sixteen random
    /// bytes. The process ends if the system's source of randomness fails.
    pub fn new_random() -> (id: SubscriptionId)
        ensures
            is_uuid_v4_text(id@),
    {
        SubscriptionId::from_random_bytes(random_bytes())
    }

    /// The id made of the sixteen random bytes given.
    pub fn from_random_bytes(bytes: [u8; 16]) -> (id: SubscriptionId)
        ensures
            id@ == uuid_v4_text(bytes@),
    {
        SubscriptionId(uuid_v4_string(bytes))
    }

    /// The id whose text is `s`, whatever `s` holds; `to_string` gives `s`
    /// back.
    pub fn from_string(s: &str) -> (id: SubscriptionId)
        ensures
            id@ == s@,
    {
        SubscriptionId(String::from_str(s))
    }

    /// The text of the id.
    pub fn to_string(&self) -> (s: String)
        ensures
            s@ == self@,
    {
        self.0.clone()
    }

    /// The text of the id, borrowed.
    pub fn as_str(&self) -> (s: &str)
        ensures
            s@ == self@,
    {
        self.0.as_str()
    }

    /// The JSON-RPC id that carries this id: the string id of the same text.
    pub fn to_rpc_id(self) -> (id: Id)
        ensures
            id@ == rpc_id_of(self@),
    {
        Id::Str(self.0)
    }

    /// The subscription id that a JSON-RPC id stands for. A string id is
    /// taken as it is and a number in decimal; an absent id is refused.
    pub fn try_from_rpc_id(id: Id) -> (r: Result<SubscriptionId, Error>)
        ensures
            match subscription_id_of(id@) {
                Some(text) => r is Ok && r->Ok_0@ == text,
                None => r == Err::<SubscriptionId, Error>(Error::IdConversion),
            },
    {
        match id {
            Id::Str(s) => Ok(SubscriptionId(s)),
            Id::Num(n) => Ok(SubscriptionId(decimal_string(n))),
            Id::Absent => Err(Error::IdConversion),
        }
    }
}

/// The texts of the ids in `ids`.
pub open spec fn texts(ids: Seq<SubscriptionId>) -> Set<Seq<char>> {
    Set::new(|text: Seq<char>| exists|i: int| 0 <= i < ids.len() && (#[trigger] ids[i])@ == text)
}

/// One more id adds its text and no other.
pub proof fn lemma_texts_push(ids: Seq<SubscriptionId>, id: SubscriptionId)
    ensures
        texts(ids.push(id)) == texts(ids).insert(id@),
{
    let more = ids.push(id);
    assert forall|text: Seq<char>| texts(more).contains(text) implies texts(ids).insert(
        id@,
    ).contains(text) by {
        let i = choose|i: int| 0 <= i < more.len() && (#[trigger] more[i])@ == text;
        if i < ids.len() {
            assert(ids[i]@ == text);
        }
    }
    assert forall|text: Seq<char>| texts(ids).insert(id@).contains(text) implies texts(
        more,
    ).contains(text) by {
        if text == id@ {
            assert(more[ids.len() as int]@ == text);
        } else {
            let i = choose|i: int| 0 <= i < ids.len() && (#[trigger] ids[i])@ == text;
            assert(more[i]@ == text);
        }
    }
    assert(texts(more) =~= texts(ids).insert(id@));
}

/// A subscription id that went to a JSON-RPC id comes back as it was.
pub proof fn lemma_rpc_id_round_trip(text: Seq<char>)
    ensures
        subscription_id_of(rpc_id_of(text)) == Some(text),
{
}

} // verus!
