//! Properties of the codec, stated over the spec functions that the
//! conversions' contracts use.

use vstd::prelude::*;
use vstd::utf8::{encode_utf8, encode_utf8_decode_utf8, encode_utf8_valid_utf8, valid_utf8};
use crate::hex::{
    all_hex, hex_char_value, hex_value, is_hex_char, is_lower_hex_char, lemma_hex_value_digitwise,
    lemma_lower_hex_text, lemma_pow16_32,
};
use crate::object_id::{hex_text, is_sharded_path_of, path_identifier, shard_names};
use crate::path::{lemma_normal_parts_prefix, normal_parts, parts_text, path_text, PathComponent};
use crate::uuid_text::is_simple_form;

verus! {

/// An identifier's sharded path has three names, of 2, 2 and 28 characters,
/// all lowercase hexadecimal digits, which joined give its 32-digit text.
pub proof fn lemma_shard_shape(v: u128)
    ensures
        shard_names(v).len() == 3,
        shard_names(v)[0].len() == 2,
        shard_names(v)[1].len() == 2,
        shard_names(v)[2].len() == 28,
        forall|k: int, i: int|
            0 <= k < 3 && 0 <= i < shard_names(v)[k].len() ==> is_lower_hex_char(
                #[trigger] shard_names(v)[k][i],
            ),
        shard_names(v)[0] + shard_names(v)[1] + shard_names(v)[2] == hex_text(v),
{
    lemma_pow16_32();
    lemma_lower_hex_text(v as nat, 32);
    let t = hex_text(v);
    assert forall|k: int, i: int|
        0 <= k < 3 && 0 <= i < shard_names(v)[k].len() implies is_lower_hex_char(
        #[trigger] shard_names(v)[k][i],
    ) by {
        if k == 0 {
            assert(shard_names(v)[k][i] == t[i]);
        } else if k == 1 {
            assert(shard_names(v)[k][i] == t[i + 2]);
        } else {
            assert(shard_names(v)[k][i] == t[i + 4]);
        }
    }
    assert(shard_names(v)[0] + shard_names(v)[1] + shard_names(v)[2] =~= t);
}

/// Decoding the sharded path of an identifier gives that identifier back.
pub proof fn lemma_round_trip(p: Seq<PathComponent>, v: u128)
    requires
        is_sharded_path_of(p, v),
    ensures
        path_identifier(p) == Some(v as nat),
{
    lemma_shard_shape(v);
    lemma_pow16_32();
    lemma_lower_hex_text(v as nat, 32);
    let names = shard_names(v);
    let bytes = seq![encode_utf8(names[0]), encode_utf8(names[1]), encode_utf8(names[2])];
    assert(p[0] is Normal && p[1] is Normal && p[2] is Normal);
    assert(p.drop_last().drop_last().drop_last() =~= Seq::<PathComponent>::empty());
    assert(normal_parts(p) =~= bytes) by {
        reveal_with_fuel(normal_parts, 4);
    }
    encode_utf8_valid_utf8(names[0]);
    encode_utf8_valid_utf8(names[1]);
    encode_utf8_valid_utf8(names[2]);
    encode_utf8_decode_utf8(names[0]);
    encode_utf8_decode_utf8(names[1]);
    encode_utf8_decode_utf8(names[2]);
    assert(bytes.drop_last().drop_last().drop_last() =~= Seq::<Seq<u8>>::empty());
    assert(parts_text(bytes) =~= names[0] + names[1] + names[2]) by {
        reveal_with_fuel(parts_text, 4);
        assert(bytes.drop_last().drop_last().last() == encode_utf8(names[0]));
        assert(bytes.drop_last().last() == encode_utf8(names[1]));
        assert(Seq::<char>::empty() + names[0] =~= names[0]);
    }
    assert(path_text(p) == Some(hex_text(v)));
    assert(is_simple_form(hex_text(v)));
}

/// A path with a `Normal` component whose name is not valid UTF-8 has no
/// text, so decoding it fails with `NonUtf8`.
pub proof fn lemma_non_text_name(p: Seq<PathComponent>, i: int)
    requires
        0 <= i < p.len(),
        p[i] is Normal,
        !valid_utf8(p[i]->Normal_0@),
    ensures
        path_text(p) is None,
        path_identifier(p) is None,
{
    lemma_normal_parts_prefix(p, i + 1);
    assert(p.subrange(0, i + 1).drop_last() =~= p.subrange(0, i));
    let upto = normal_parts(p.subrange(0, i + 1));
    let before = normal_parts(p.subrange(0, i));
    assert(upto == before.push(p[i]->Normal_0@));
    assert(upto[before.len() as int] == p[i]->Normal_0@);
    assert(normal_parts(p)[before.len() as int] == p[i]->Normal_0@);
}

/// A path whose `Normal` names are text but do not join to exactly 32
/// hexadecimal digits (too short, too long, or holding another character)
/// names no identifier, so decoding it fails with `InvalidUuid`.
pub proof fn lemma_malformed_text(p: Seq<PathComponent>, t: Seq<char>)
    requires
        path_text(p) == Some(t),
        t.len() != 32 || !all_hex(t),
    ensures
        path_identifier(p) is None,
{
}

/// Roots, prefixes, `.` and `..` do not change what a path names: two paths
/// with the same `Normal` names in the same order have the same text and
/// name the same identifier.
pub proof fn lemma_navigation_ignored(p: Seq<PathComponent>, q: Seq<PathComponent>)
    requires
        normal_parts(p) == normal_parts(q),
    ensures
        path_text(p) == path_text(q),
        path_identifier(p) == path_identifier(q),
{
}

/// Two characters that are equal, or hexadecimal digits of equal value
/// (`a` and `A`).
pub open spec fn same_but_hex_case(a: char, b: char) -> bool {
    a == b || (is_hex_char(a) && is_hex_char(b) && hex_char_value(a) == hex_char_value(b))
}

/// Two texts that differ at most in the case of hexadecimal digits.
pub open spec fn texts_same_but_hex_case(s: Seq<char>, t: Seq<char>) -> bool {
    s.len() == t.len() && forall|i: int| 0 <= i < s.len() ==> same_but_hex_case(#[trigger] s[i], t[i])
}

proof fn lemma_all_hex_same_but_case(s: Seq<char>, t: Seq<char>)
    requires
        texts_same_but_hex_case(s, t),
    ensures
        all_hex(s) <==> all_hex(t),
        all_hex(s) ==> hex_value(s) == hex_value(t),
{
    if all_hex(s) {
        assert forall|i: int| 0 <= i < t.len() implies #[trigger] is_hex_char(t[i]) by {
            assert(same_but_hex_case(s[i], t[i]));
            assert(is_hex_char(s[i]));
        }
        assert forall|i: int| 0 <= i < s.len() implies hex_char_value(#[trigger] s[i])
            == hex_char_value(t[i]) by {
            assert(same_but_hex_case(s[i], t[i]));
        }
        lemma_hex_value_digitwise(s, t);
    }
    if all_hex(t) {
        assert forall|i: int| 0 <= i < s.len() implies #[trigger] is_hex_char(s[i]) by {
            assert(same_but_hex_case(s[i], t[i]));
            assert(is_hex_char(t[i]));
        }
    }
}

/// Decoding is blind to the case of hexadecimal digits: two paths whose
/// texts differ at most in the case of some digits name the same
/// identifier, or both none.
pub proof fn lemma_hex_case(p: Seq<PathComponent>, q: Seq<PathComponent>, s: Seq<char>, t: Seq<char>)
    requires
        path_text(p) == Some(s),
        path_text(q) == Some(t),
        texts_same_but_hex_case(s, t),
    ensures
        path_identifier(p) == path_identifier(q),
{
    lemma_all_hex_same_but_case(s, t);
}

}
