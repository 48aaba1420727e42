//! Data and index entries share one disk cache: no two of them share a key.

use vstd::prelude::*;

use crate::foyer_data_cache;
use crate::foyer_index_cache;
use crate::text;

verus! {

/// Whether a text can stand between separators: it holds no NUL.
pub open spec fn separable(text: Seq<char>) -> bool {
    !text.contains('\0')
}

/// A text cut at its first mark is cut in one way only.
pub proof fn lemma_cut(a: Seq<char>, b: Seq<char>, c: Seq<char>, d: Seq<char>, mark: char)
    requires
        !a.contains(mark),
        !c.contains(mark),
        a + seq![mark] + b == c + seq![mark] + d,
    ensures
        a == c,
        b == d,
{
    let left = a + seq![mark] + b;
    let right = c + seq![mark] + d;
    if a.len() < c.len() {
        assert(left[a.len() as int] == mark);
        assert(right[a.len() as int] == c[a.len() as int]);
        assert(c.contains(mark));
    }
    if c.len() < a.len() {
        assert(right[c.len() as int] == mark);
        assert(left[c.len() as int] == a[c.len() as int]);
        assert(a.contains(mark));
    }
    assert(a =~= left.take(a.len() as int));
    assert(c =~= right.take(a.len() as int));
    assert(b =~= left.skip(a.len() as int + 1));
    assert(d =~= right.skip(a.len() as int + 1));
}

pub proof fn lemma_decimal_has_no(n: nat, mark: char)
    requires
        !text::is_digit(mark),
    ensures
        !text::decimal(n).contains(mark),
{
    text::lemma_decimal_digits(n);
    if text::decimal(n).contains(mark) {
        let i = choose|i: int| 0 <= i < text::decimal(n).len() && text::decimal(n)[i] == mark;
        assert(text::is_digit(text::decimal(n)[i]));
    }
}

/// The parts of a data key after the version, up to its last separator.
proof fn lemma_data_key_parts(
    block_size: nat,
    prefix: Seq<char>,
    location: Seq<char>,
    tail: Seq<char>,
)
    ensures
        "lance-data-v1\0"@ + text::decimal(block_size) + "\0"@ + prefix + "\0"@ + location + "\0"@
            + tail == "lance-data-v1\0"@ + (text::decimal(block_size) + seq!['\0'] + (prefix
            + seq!['\0'] + (location + seq!['\0'] + tail))),
{
    reveal_strlit("\0");
    assert("\0"@ =~= seq!['\0']);
    assert("lance-data-v1\0"@ + text::decimal(block_size) + "\0"@ + prefix + "\0"@ + location
        + "\0"@ + tail =~= "lance-data-v1\0"@ + (text::decimal(block_size) + seq!['\0'] + (prefix
        + seq!['\0'] + (location + seq!['\0'] + tail))));
}

/// Data keys with the same text have the same parts.
proof fn lemma_same_data_keys(
    block_size_a: nat,
    prefix_a: Seq<char>,
    location_a: Seq<char>,
    tail_a: Seq<char>,
    block_size_b: nat,
    prefix_b: Seq<char>,
    location_b: Seq<char>,
    tail_b: Seq<char>,
)
    requires
        separable(prefix_a),
        separable(location_a),
        separable(prefix_b),
        separable(location_b),
        "lance-data-v1\0"@ + text::decimal(block_size_a) + "\0"@ + prefix_a + "\0"@ + location_a
            + "\0"@ + tail_a == "lance-data-v1\0"@ + text::decimal(block_size_b) + "\0"@ + prefix_b
            + "\0"@ + location_b + "\0"@ + tail_b,
    ensures
        block_size_a == block_size_b,
        prefix_a == prefix_b,
        location_a == location_b,
        tail_a == tail_b,
{
    let version = "lance-data-v1\0"@;
    lemma_data_key_parts(block_size_a, prefix_a, location_a, tail_a);
    lemma_data_key_parts(block_size_b, prefix_b, location_b, tail_b);
    let last_a = location_a + seq!['\0'] + tail_a;
    let last_b = location_b + seq!['\0'] + tail_b;
    let middle_a = prefix_a + seq!['\0'] + last_a;
    let middle_b = prefix_b + seq!['\0'] + last_b;
    let rest_a = text::decimal(block_size_a) + seq!['\0'] + middle_a;
    let rest_b = text::decimal(block_size_b) + seq!['\0'] + middle_b;
    assert(rest_a =~= (version + rest_a).skip(version.len() as int));
    assert(rest_b =~= (version + rest_b).skip(version.len() as int));
    lemma_decimal_has_no(block_size_a, '\0');
    lemma_decimal_has_no(block_size_b, '\0');
    lemma_cut(
        text::decimal(block_size_a),
        middle_a,
        text::decimal(block_size_b),
        middle_b,
        '\0',
    );
    text::lemma_decimal_injective(block_size_a, block_size_b);
    lemma_cut(prefix_a, last_a, prefix_b, last_b, '\0');
    lemma_cut(location_a, tail_a, location_b, tail_b, '\0');
}

/// Blocks of different objects, stores or block sizes, and different blocks of
/// one object, have different keys.
pub proof fn law_block_keys_are_distinct(
    block_size_a: nat,
    prefix_a: Seq<char>,
    location_a: Seq<char>,
    index_a: nat,
    block_size_b: nat,
    prefix_b: Seq<char>,
    location_b: Seq<char>,
    index_b: nat,
)
    requires
        separable(prefix_a),
        separable(location_a),
        separable(prefix_b),
        separable(location_b),
        foyer_data_cache::block_key(block_size_a, prefix_a, location_a, index_a)
            == foyer_data_cache::block_key(block_size_b, prefix_b, location_b, index_b),
    ensures
        block_size_a == block_size_b,
        prefix_a == prefix_b,
        location_a == location_b,
        index_a == index_b,
{
    lemma_same_data_keys(
        block_size_a,
        prefix_a,
        location_a,
        text::decimal(index_a),
        block_size_b,
        prefix_b,
        location_b,
        text::decimal(index_b),
    );
    text::lemma_decimal_injective(index_a, index_b);
}

proof fn lemma_size_key_parts(block_size: nat, prefix: Seq<char>, location: Seq<char>)
    ensures
        foyer_data_cache::object_size_key(block_size, prefix, location) == "lance-data-v1\0"@
            + text::decimal(block_size) + "\0"@ + prefix + "\0"@ + location + "\0"@ + "size"@,
{
    reveal_strlit("\0");
    reveal_strlit("size");
    reveal_strlit("\0size");
    assert("\0size"@ =~= "\0"@ + "size"@);
    assert(foyer_data_cache::object_size_key(block_size, prefix, location) =~= "lance-data-v1\0"@
        + text::decimal(block_size) + "\0"@ + prefix + "\0"@ + location + "\0"@ + "size"@);
}

/// Different objects have different keys for their sizes.
pub proof fn law_size_keys_are_distinct(
    block_size_a: nat,
    prefix_a: Seq<char>,
    location_a: Seq<char>,
    block_size_b: nat,
    prefix_b: Seq<char>,
    location_b: Seq<char>,
)
    requires
        separable(prefix_a),
        separable(location_a),
        separable(prefix_b),
        separable(location_b),
        foyer_data_cache::object_size_key(block_size_a, prefix_a, location_a)
            == foyer_data_cache::object_size_key(block_size_b, prefix_b, location_b),
    ensures
        block_size_a == block_size_b,
        prefix_a == prefix_b,
        location_a == location_b,
{
    lemma_size_key_parts(block_size_a, prefix_a, location_a);
    lemma_size_key_parts(block_size_b, prefix_b, location_b);
    lemma_same_data_keys(
        block_size_a,
        prefix_a,
        location_a,
        "size"@,
        block_size_b,
        prefix_b,
        location_b,
        "size"@,
    );
}

/// The key of a size is never the key of a block.
pub proof fn law_size_key_is_no_block_key(
    block_size_a: nat,
    prefix_a: Seq<char>,
    location_a: Seq<char>,
    block_size_b: nat,
    prefix_b: Seq<char>,
    location_b: Seq<char>,
    index: nat,
)
    requires
        separable(prefix_a),
        separable(location_a),
        separable(prefix_b),
        separable(location_b),
    ensures
        foyer_data_cache::object_size_key(block_size_a, prefix_a, location_a)
            != foyer_data_cache::block_key(block_size_b, prefix_b, location_b, index),
{
    if foyer_data_cache::object_size_key(block_size_a, prefix_a, location_a)
        == foyer_data_cache::block_key(block_size_b, prefix_b, location_b, index) {
        lemma_size_key_parts(block_size_a, prefix_a, location_a);
        lemma_same_data_keys(
            block_size_a,
            prefix_a,
            location_a,
            "size"@,
            block_size_b,
            prefix_b,
            location_b,
            text::decimal(index),
        );
        reveal_strlit("size");
        lemma_decimal_has_no(index, 's');
        assert("size"@[0] == 's');
        assert("size"@.contains('s'));
    }
}

/// Different octets have different hexadecimal texts.
proof fn lemma_hex_injective(a: Seq<u8>, b: Seq<u8>)
    requires
        text::hex(a) == text::hex(b),
    ensures
        a == b,
{
    assert(text::hex(a).len() == text::hex(b).len());
    assert(text::hex(a).len() == 2 * a.len());
    assert(text::hex(b).len() == 2 * b.len());
    assert forall|i: int| 0 <= i < a.len() implies a[i] == b[i] by {
        assert(text::hex(a)[2 * i] == text::hex(b)[2 * i]);
        assert(text::hex(a)[2 * i + 1] == text::hex(b)[2 * i + 1]);
        assert((2 * i) / 2 == i && (2 * i + 1) / 2 == i);
        assert(text::hex(a)[2 * i] == text::hex_digit((a[i] / 16) as nat));
        assert(text::hex(b)[2 * i] == text::hex_digit((b[i] / 16) as nat));
        assert(text::hex(a)[2 * i + 1] == text::hex_digit((a[i] % 16) as nat));
        assert(text::hex(b)[2 * i + 1] == text::hex_digit((b[i] % 16) as nat));
    }
    assert(a =~= b);
}

proof fn lemma_index_key_parts(generation: nat, type_id: Seq<char>, key: Seq<u8>)
    ensures
        foyer_index_cache::index_key(generation, type_id, key) == ("lance-index-v1:"@
            + foyer_index_cache::cache_key_format() + ":"@) + (text::decimal(generation)
            + seq![':'] + (type_id + ":"@ + text::hex(key))),
{
    reveal_strlit(":");
    assert(":"@ =~= seq![':']);
    assert(foyer_index_cache::index_key(generation, type_id, key) =~= ("lance-index-v1:"@
        + foyer_index_cache::cache_key_format() + ":"@) + (text::decimal(generation) + seq![':']
        + (type_id + ":"@ + text::hex(key))));
}

/// Index entries of different generations, types or cache keys have different
/// disk keys: after the generation changes, no entry of an earlier one is read.
pub proof fn law_index_keys_are_distinct(
    generation_a: nat,
    type_a: Seq<char>,
    key_a: Seq<u8>,
    generation_b: nat,
    type_b: Seq<char>,
    key_b: Seq<u8>,
)
    requires
        key_a.len() == 16,
        key_b.len() == 16,
        foyer_index_cache::index_key(generation_a, type_a, key_a) == foyer_index_cache::index_key(
            generation_b,
            type_b,
            key_b,
        ),
    ensures
        generation_a == generation_b,
        type_a == type_b,
        key_a == key_b,
{
    let head = "lance-index-v1:"@ + foyer_index_cache::cache_key_format() + ":"@;
    lemma_index_key_parts(generation_a, type_a, key_a);
    lemma_index_key_parts(generation_b, type_b, key_b);
    let tail_a = type_a + ":"@ + text::hex(key_a);
    let tail_b = type_b + ":"@ + text::hex(key_b);
    let rest_a = text::decimal(generation_a) + seq![':'] + tail_a;
    let rest_b = text::decimal(generation_b) + seq![':'] + tail_b;
    assert(rest_a =~= (head + rest_a).skip(head.len() as int));
    assert(rest_b =~= (head + rest_b).skip(head.len() as int));
    lemma_decimal_has_no(generation_a, ':');
    lemma_decimal_has_no(generation_b, ':');
    lemma_cut(text::decimal(generation_a), tail_a, text::decimal(generation_b), tail_b, ':');
    text::lemma_decimal_injective(generation_a, generation_b);
    reveal_strlit(":");
    assert(text::hex(key_a) =~= tail_a.skip(tail_a.len() - 32));
    assert(text::hex(key_b) =~= tail_b.skip(tail_b.len() - 32));
    assert(type_a =~= tail_a.take(tail_a.len() - 33));
    assert(type_b =~= tail_b.take(tail_b.len() - 33));
    lemma_hex_injective(key_a, key_b);
}

/// A cleared cache finds nothing that stands under an earlier generation, whatever
/// a load that began before the clear still writes there.
pub proof fn law_clear_isolates_generations(
    earlier: nat,
    later: nat,
    type_a: Seq<char>,
    key_a: Seq<u8>,
    type_b: Seq<char>,
    key_b: Seq<u8>,
)
    requires
        key_a.len() == 16,
        key_b.len() == 16,
        earlier != later,
    ensures
        foyer_index_cache::index_key(earlier, type_a, key_a) != foyer_index_cache::index_key(
            later,
            type_b,
            key_b,
        ),
{
    if foyer_index_cache::index_key(earlier, type_a, key_a) == foyer_index_cache::index_key(
        later,
        type_b,
        key_b,
    ) {
        law_index_keys_are_distinct(earlier, type_a, key_a, later, type_b, key_b);
    }
}

/// No index entry stands under the key of a data entry.
pub proof fn law_data_and_index_keys_never_meet(
    block_size: nat,
    prefix: Seq<char>,
    location: Seq<char>,
    index: nat,
    generation: nat,
    type_id: Seq<char>,
    key: Seq<u8>,
)
    ensures
        foyer_data_cache::block_key(block_size, prefix, location, index)
            != foyer_index_cache::index_key(generation, type_id, key),
        foyer_data_cache::object_size_key(block_size, prefix, location)
            != foyer_index_cache::index_key(generation, type_id, key),
{
    reveal_strlit("lance-data-v1\0");
    reveal_strlit("lance-index-v1:");
    assert(foyer_data_cache::block_key(block_size, prefix, location, index)[6] == 'd');
    assert(foyer_data_cache::object_size_key(block_size, prefix, location)[6] == 'd');
    assert(foyer_index_cache::index_key(generation, type_id, key)[6] == 'i');
}

} // verus!
