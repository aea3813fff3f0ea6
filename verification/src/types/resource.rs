//! Identities and names of sequences and topics.

use vstd::prelude::*;
use vstd::string::StrSliceExecFns;
use crate::text::str_eq;

verus! {

/// A universally unique identifier, by its 128 bits.
#[derive(Debug, Clone, Copy, PartialEq, Eq, Structural)]
pub struct Uuid {
    pub bits: u128,
}

/// The bits of the identifier that a text spells, in any of the forms that
/// identifiers are written in; none for a text that spells no identifier.
pub uninterp spec fn uuid_of_text(text: Seq<char>) -> Option<u128>;

/// Reads an identifier with `uuid::Uuid::parse_str` and gives its bits as
/// `as_u128` does. The outcome depends on the text alone: it is the named
/// reading of the text, and where the text has none, the message of the
/// parser's error.
#[verifier::external_body]
fn parse_uuid(text: &str) -> (r: Result<u128, String>)
    ensures
        match r {
            Ok(bits) => uuid_of_text(text@) == Some(bits),
            Err(_) => uuid_of_text(text@) is None,
        },
{
    match uuid::Uuid::parse_str(text) {
        Ok(id) => Ok(id.as_u128()),
        Err(e) => Err(e.to_string()),
    }
}

/// Draws an identifier with `uuid::Uuid::new_v4`. The bits are random but
/// for the version, which is 4, and the variant, which is the standard one.
#[verifier::external_body]
fn random_uuid() -> (r: u128)
    ensures
        (r >> 76u128) & 0xFu128 == 4,
        (r >> 62u128) & 0x3u128 == 2,
{
    uuid::Uuid::new_v4().as_u128()
}

impl Uuid {
    /// Whether the bits are those of a random identifier: version 4 in the
    /// standard variant.
    pub open spec fn is_random(&self) -> bool {
        (self.bits >> 76u128) & 0xFu128 == 4 && (self.bits >> 62u128) & 0x3u128 == 2
    }

    /// The identifier with the given bits.
    pub fn from_u128(bits: u128) -> (r: Uuid)
        ensures
            r.bits == bits,
    {
        Uuid { bits }
    }

    /// The bits of the identifier.
    pub fn as_u128(&self) -> (r: u128)
        ensures
            r == self.bits,
    {
        self.bits
    }

    /// A fresh random identifier.
    pub fn new_v4() -> (r: Uuid)
        ensures
            r.is_random(),
    {
        Uuid { bits: random_uuid() }
    }

    /// The identifier that `text` spells, or the message of the error.
    pub fn parse_str(text: &str) -> (r: Result<Uuid, String>)
        ensures
            match r {
                Ok(id) => uuid_of_text(text@) == Some(id.bits),
                Err(_) => uuid_of_text(text@) is None,
            },
    {
        match parse_uuid(text) {
            Ok(bits) => Ok(Uuid { bits }),
            Err(e) => Err(e),
        }
    }
}

/// The number and the identifier of a stored resource.
#[derive(Debug, Clone, Copy, PartialEq, Eq, Structural)]
pub struct ResourceId {
    pub id: i32,
    pub uuid: Uuid,
}

/// Whether `name` begins with `parent` and a slash.
pub open spec fn is_under(name: Seq<char>, parent: Seq<char>) -> bool {
    (parent + seq!['/']).is_prefix_of(name)
}

/// The name of a sequence.
#[derive(Debug, Clone)]
pub struct SequenceResourceLocator {
    pub name: String,
}

impl SequenceResourceLocator {
    /// The name.
    pub fn name(&self) -> (r: &str)
        ensures
            r@ == self.name@,
    {
        self.name.as_str()
    }
}

impl From<String> for SequenceResourceLocator {
    fn from(name: String) -> (r: SequenceResourceLocator) {
        SequenceResourceLocator { name }
    }
}

impl vstd::std_specs::convert::FromSpecImpl<String> for SequenceResourceLocator {
    open spec fn obeys_from_spec() -> bool {
        true
    }

    open spec fn from_spec(name: String) -> SequenceResourceLocator {
        SequenceResourceLocator { name }
    }
}

/// The name of a topic: the name of its sequence, a slash, and the path of
/// the topic within the sequence.
#[derive(Debug, Clone)]
pub struct TopicResourceLocator {
    pub name: String,
}

impl TopicResourceLocator {
    /// The name.
    pub fn name(&self) -> (r: &str)
        ensures
            r@ == self.name@,
    {
        self.name.as_str()
    }

    /// Whether the topic lies under the sequence: its name begins with the
    /// name of the sequence and a slash.
    pub fn is_child_of(&self, sequence: &SequenceResourceLocator) -> (r: bool)
        ensures
            r == is_under(self.name@, sequence.name@),
    {
        let name = self.name.as_str();
        let parent = sequence.name.as_str();
        let n: usize = name.unicode_len();
        let p: usize = parent.unicode_len();
        if n <= p {
            return false;
        }
        let head = name.substring_char(0, p);
        if !str_eq(head, parent) {
            assert(!is_under(self.name@, sequence.name@)) by {
                if is_under(self.name@, sequence.name@) {
                    assert(self.name@.subrange(0, p as int) =~= sequence.name@);
                }
            }
            return false;
        }
        let c = name.get_char(p);
        proof {
            let whole = sequence.name@ + seq!['/'];
            if c == '/' {
                assert(self.name@.subrange(0, whole.len() as int) =~= whole);
            } else {
                if is_under(self.name@, sequence.name@) {
                    assert(self.name@.subrange(0, whole.len() as int) == whole);
                    assert(self.name@[p as int] == whole[p as int]);
                }
            }
        }
        c == '/'
    }
}

impl From<String> for TopicResourceLocator {
    fn from(name: String) -> (r: TopicResourceLocator) {
        TopicResourceLocator { name }
    }
}

impl vstd::std_specs::convert::FromSpecImpl<String> for TopicResourceLocator {
    open spec fn obeys_from_spec() -> bool {
        true
    }

    open spec fn from_spec(name: String) -> TopicResourceLocator {
        TopicResourceLocator { name }
    }
}

} // verus!
