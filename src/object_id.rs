//! The object identifier and its two conversions: to a sharded path and
//! back.

use vstd::prelude::*;
use vstd::utf8::encode_utf8;
use crate::hex::{hex_value, lemma_lower_hex_text, lemma_pow16_32, lower_hex_text};
use crate::path::{normal_text, path_text, PathComponent};
use crate::uuid_text::{identifier_of_text, is_simple_form, parse_identifier, simple_lower};

verus! {

/// A 128-bit object identifier. Every value is a valid identifier.
#[derive(Clone, Copy, Debug, PartialEq, Eq, Hash, Structural)]
pub struct ObjectId(pub u128);

/// Why a path does not name an object.
#[derive(Clone, Debug, PartialEq, Eq)]
pub enum InvalidObjectId {
    /// A named component of the path is not valid UTF-8.
    NonUtf8,
    /// The joined names are not an identifier; carries the parser's error.
    InvalidUuid(uuid::Error),
}

/// The 32 lowercase hexadecimal digits of `v`.
pub open spec fn hex_text(v: u128) -> Seq<char> {
    lower_hex_text(v as nat, 32)
}

/// The three directory names of `v`: digits `[0, 2)`, `[2, 4)` and `[4, 32)`
/// of its hexadecimal text.
pub open spec fn shard_names(v: u128) -> Seq<Seq<char>> {
    let t = hex_text(v);
    seq![t.subrange(0, 2), t.subrange(2, 4), t.subrange(4, 32)]
}

/// `p` is the sharded path of `v`: three `Normal` components holding the
/// UTF-8 bytes of its three directory names.
pub open spec fn is_sharded_path_of(p: Seq<PathComponent>, v: u128) -> bool {
    &&& p.len() == 3
    &&& forall|k: int|
        0 <= k < 3 ==> (#[trigger] p[k] is Normal && p[k]->Normal_0@ == encode_utf8(
            shard_names(v)[k],
        ))
}

/// The identifier that a text of the sharded layout denotes: 32 hexadecimal
/// digits in either case, read as one number; `None` for any other text.
pub open spec fn simple_identifier(t: Seq<char>) -> Option<nat> {
    if is_simple_form(t) {
        Some(hex_value(t))
    } else {
        None
    }
}

/// The identifier that a path names: the one its joined `Normal` names
/// denote, or `None` when they are not text or not 32 hexadecimal digits.
pub open spec fn path_identifier(p: Seq<PathComponent>) -> Option<nat> {
    match path_text(p) {
        Some(t) => simple_identifier(t),
        None => None,
    }
}

impl ObjectId {
    /// Reads an identifier from its text: 32 hexadecimal digits in either
    /// case, optionally hyphenated as 8-4-4-4-12, optionally after
    /// `urn:uuid:`.
    pub fn from_text(s: &str) -> (r: Result<ObjectId, InvalidObjectId>)
        ensures
            r is Ok <==> identifier_of_text(s@) is Some,
            r is Ok ==> Some(r->Ok_0.0 as nat) == identifier_of_text(s@),
            r is Err ==> r->Err_0 is InvalidUuid,
    {
        match parse_identifier(s) {
            Ok(v) => Ok(ObjectId(v)),
            Err(e) => Err(InvalidObjectId::InvalidUuid(e)),
        }
    }

    /// The sharded path of this identifier: `xx/yy/zz…`, the 32 lowercase
    /// hexadecimal digits cut after the second and the fourth.
    pub fn encode(&self) -> (r: Vec<PathComponent>)
        ensures
            is_sharded_path_of(r@, self.0),
    {
        let text = simple_lower(self.0);
        proof {
            lemma_pow16_32();
            lemma_lower_hex_text(self.0 as nat, 32);
        }
        let s = text.as_str();
        let first = s.substring_char(0, 2);
        let second = s.substring_char(2, 4);
        let rest = s.substring_char(4, 32);
        let mut r: Vec<PathComponent> = Vec::new();
        r.push(PathComponent::Normal(first.as_bytes_vec()));
        r.push(PathComponent::Normal(second.as_bytes_vec()));
        r.push(PathComponent::Normal(rest.as_bytes_vec()));
        r
    }

    /// The identifier that a path names. The names of its `Normal`
    /// components are joined in order with no separator, and the result must
    /// be exactly 32 hexadecimal digits, in either case; roots, prefixes, `.`
    /// and `..` are passed over.
    ///
    /// A name that is not UTF-8 gives `NonUtf8`; any other text gives
    /// `InvalidUuid` with the parser's error for it. The hyphenated and URN
    /// forms, which the parser takes but this layout never holds, carry the
    /// parser's error for an empty text, a length error.
    pub fn decode(path: &[PathComponent]) -> (r: Result<ObjectId, InvalidObjectId>)
        ensures
            r is Ok <==> path_identifier(path@) is Some,
            r is Ok ==> Some(r->Ok_0.0 as nat) == path_identifier(path@),
            r is Err ==> (r->Err_0 is NonUtf8 <==> path_text(path@) is None),
    {
        match normal_text(path) {
            Some(text) => {
                let s = text.as_str();
                if s.unicode_len() == 32 {
                    // Of the parser's forms, only the simple one has 32 characters.
                    ObjectId::from_text(s)
                } else {
                    match parse_identifier(s) {
                        Err(e) => Err(InvalidObjectId::InvalidUuid(e)),
                        Ok(_) => Err(InvalidObjectId::InvalidUuid(empty_text_error())),
                    }
                }
            },
            None => Err(InvalidObjectId::NonUtf8),
        }
    }
}

/// The parser's error for an empty text.
fn empty_text_error() -> uuid::Error {
    let empty = "";
    proof {
        reveal_strlit("");
    }
    match parse_identifier(empty) {
        Err(e) => e,
        Ok(_) => vstd::pervasive::unreached(),
    }
}

}
