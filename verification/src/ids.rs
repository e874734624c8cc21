//! Execution identifiers: UUIDs as 128-bit numbers, and the texts that spell them.
use vstd::prelude::*;

verus! {

/// The sixteen hexadecimal digits, in lower case.
pub open spec fn hex_digits() -> Seq<char> {
    seq!['0', '1', '2', '3', '4', '5', '6', '7', '8', '9', 'a', 'b', 'c', 'd', 'e', 'f']
}

/// The `i`-th of the 32 hexadecimal digits of `id`, the most significant one first.
pub open spec fn digit(id: u128, i: int) -> char {
    hex_digits()[((id >> ((4 * (31 - i)) as u128)) & 0xf) as int]
}

/// How many hyphens stand before position `k` of a hyphenated identifier.
pub open spec fn hyphens_before(k: int) -> int {
    if k <= 8 {
        0
    } else if k <= 13 {
        1
    } else if k <= 18 {
        2
    } else if k <= 23 {
        3
    } else {
        4
    }
}

/// The 32 digits of `id` in a row.
pub open spec fn simple_text(id: u128) -> Seq<char> {
    Seq::new(32, |i: int| digit(id, i))
}

/// The digits of `id` in groups of 8, 4, 4, 4 and 12, with hyphens between the groups.
pub open spec fn id_text(id: u128) -> Seq<char> {
    Seq::new(
        36,
        |k: int|
            if k == 8 || k == 13 || k == 18 || k == 23 {
                '-'
            } else {
                digit(id, k - hyphens_before(k))
            },
    )
}

/// `c`, in lower case if it is an upper-case ASCII letter.
pub open spec fn ascii_lower(c: char) -> char {
    if 'A' <= c && c <= 'Z' {
        (c as u32 + 32) as char
    } else {
        c
    }
}

/// Does `text` spell `id`? Four forms are known: the bare digits, the hyphenated form, and the
/// hyphenated form as a URN or in braces. Upper and lower case mean the same.
pub open spec fn spells(text: Seq<char>, id: u128) -> bool {
    let lowered = text.map_values(|c: char| ascii_lower(c));
    ||| lowered == simple_text(id)
    ||| lowered == id_text(id)
    ||| lowered == "urn:uuid:"@ + id_text(id)
    ||| lowered == "{"@ + id_text(id) + "}"@
}

/// Does `id` carry the version and variant bits of a random UUID?
pub open spec fn is_random_id(id: u128) -> bool {
    id & 0xf000_c000_0000_0000_0000 == 0x4000_8000_0000_0000_0000
}

/// What `uuid` reports of a text that spells no UUID: the `Debug` rendering of the error that
/// `uuid::Uuid::parse_str` returns for it.
pub uninterp spec fn rejection(text: Seq<char>) -> Seq<char>;

/// Calls `uuid::Uuid::parse_str`. It accepts exactly the texts that spell a UUID in one of the
/// four forms of [`spells`], and returns that UUID, here as a number. For every other text it
/// returns an error, here in its `Debug` rendering. What that rendering says is left open; it
/// depends on the text alone.
#[verifier::external_body]
pub(crate) fn parse_uuid(text: &str) -> (parsed: Result<u128, String>)
    ensures
        match parsed {
            Ok(id) => spells(text@, id),
            Err(reason) => reason@ == rejection(text@) && forall|id: u128| !spells(text@, id),
        },
{
    match uuid::Uuid::parse_str(text) {
        Ok(id) => Ok(id.as_u128()),
        Err(error) => Err(format!("{error:?}")),
    }
}

/// Calls `to_string` on a `uuid::Uuid`, whose `Display` writes the hyphenated form in lower case.
#[verifier::external_body]
pub(crate) fn uuid_to_string(id: u128) -> (text: String)
    ensures
        text@ == id_text(id),
{
    uuid::Uuid::from_u128(id).to_string()
}

/// Calls `uuid::Uuid::new_v4`, which draws a random number and sets the version and variant bits
/// in it. That the number differs from those drawn before is not claimed. Where the machine has no
/// source of random numbers, the call does not return.
#[verifier::external_body]
pub(crate) fn uuid_new_v4() -> (id: u128)
    ensures
        is_random_id(id),
{
    uuid::Uuid::new_v4().as_u128()
}

proof fn lemma_digit_injective(a: u128, b: u128, i: int)
    requires
        0 <= i < 32,
        digit(a, i) == digit(b, i),
    ensures
        (a >> ((4 * (31 - i)) as u128)) & 0xf == (b >> ((4 * (31 - i)) as u128)) & 0xf,
{
    let s = (4 * (31 - i)) as u128;
    assert((a >> s) & 0xf < 16) by (bit_vector);
    assert((b >> s) & 0xf < 16) by (bit_vector);
}

/// The first `k` digits determine the identifier down to the last of them.
proof fn lemma_leading_digits(a: u128, b: u128, k: int)
    requires
        1 <= k <= 32,
        forall|i: int| 0 <= i < k ==> digit(a, i) == digit(b, i),
    ensures
        a >> ((4 * (32 - k)) as u128) == b >> ((4 * (32 - k)) as u128),
    decreases k,
{
    let s = (4 * (32 - k)) as u128;
    lemma_digit_injective(a, b, k - 1);
    if k == 1 {
        assert(a >> 124 == b >> 124) by (bit_vector)
            requires
                (a >> 124) & 0xf == (b >> 124) & 0xf,
        ;
    } else {
        lemma_leading_digits(a, b, k - 1);
        let t = (4 * (32 - (k - 1))) as u128;
        assert(a >> s == b >> s) by (bit_vector)
            requires
                t == s + 4,
                s < 124,
                a >> t == b >> t,
                (a >> s) & 0xf == (b >> s) & 0xf,
        ;
    }
}

/// Two identifiers with the same 32 digits are the same.
proof fn lemma_digits_injective(a: u128, b: u128)
    requires
        forall|i: int| 0 <= i < 32 ==> digit(a, i) == digit(b, i),
    ensures
        a == b,
{
    lemma_leading_digits(a, b, 32);
    assert(a >> 0 == a) by (bit_vector);
    assert(b >> 0 == b) by (bit_vector);
}

/// A text spells at most one identifier.
pub proof fn law_spelling_is_unambiguous(text: Seq<char>, a: u128, b: u128)
    requires
        spells(text, a),
        spells(text, b),
    ensures
        a == b,
{
    reveal_strlit("urn:uuid:");
    reveal_strlit("{");
    reveal_strlit("}");
    let lowered = text.map_values(|c: char| ascii_lower(c));
    let (offset, gaps) = if lowered.len() == 32 {
        (0int, false)
    } else if lowered.len() == 36 {
        (0int, true)
    } else if lowered.len() == 38 {
        (1int, true)
    } else {
        (9int, true)
    };
    assert forall|i: int| 0 <= i < 32 implies digit(a, i) == digit(b, i) by {
        if gaps {
            let k = if i < 8 {
                i
            } else if i < 12 {
                i + 1
            } else if i < 16 {
                i + 2
            } else if i < 20 {
                i + 3
            } else {
                i + 4
            };
            assert(lowered[k + offset] == id_text(b)[k]);
        } else {
            assert(simple_text(b)[i] == digit(b, i));
        }
    }
    lemma_digits_injective(a, b);
}

/// The text of an identifier spells that identifier and no other.
pub proof fn law_id_text_spells_id(id: u128)
    ensures
        spells(id_text(id), id),
        forall|other: u128| spells(id_text(id), other) ==> other == id,
{
    let text = id_text(id);
    let lowered = text.map_values(|c: char| ascii_lower(c));
    assert forall|k: int| 0 <= k < 36 implies lowered[k] == text[k] by {
        let i = k - hyphens_before(k);
        let s = (4 * (31 - i)) as u128;
        assert((id >> s) & 0xf < 16) by (bit_vector);
    }
    assert(lowered =~= text);
    assert forall|other: u128| spells(text, other) implies other == id by {
        law_spelling_is_unambiguous(text, id, other);
    }
}

/// Where the `i`-th digit stands in a hyphenated identifier.
pub open spec fn digit_position(i: int) -> int {
    if i < 8 {
        i
    } else if i < 12 {
        i + 1
    } else if i < 16 {
        i + 2
    } else if i < 20 {
        i + 3
    } else {
        i + 4
    }
}

/// The text of an identifier has hyphens in four places, and else its hexadecimal digits in lower
/// case, the most significant one first.
pub proof fn law_id_text_shape(id: u128)
    ensures
        id_text(id).len() == 36,
        id_text(id)[8] == '-' && id_text(id)[13] == '-' && id_text(id)[18] == '-' && id_text(id)[23]
            == '-',
        forall|i: int| 0 <= i < 32 ==> {
            let value = (id >> ((4 * (31 - i)) as u128)) & 0xf;
            let c = id_text(id)[#[trigger] digit_position(i)] as int;
            if value < 10 {
                c == '0' as int + value
            } else {
                c == 'a' as int + value - 10
            }
        },
{
    assert forall|i: int| 0 <= i < 32 implies {
        let value = (id >> ((4 * (31 - i)) as u128)) & 0xf;
        let c = id_text(id)[#[trigger] digit_position(i)] as int;
        if value < 10 {
            c == '0' as int + value
        } else {
            c == 'a' as int + value - 10
        }
    } by {
        let s = (4 * (31 - i)) as u128;
        assert((id >> s) & 0xf < 16) by (bit_vector);
        assert(id_text(id)[digit_position(i)] == digit(id, i));
    }
}

/// The text of a random identifier shows its version and its variant.
pub proof fn law_random_id_text(id: u128)
    requires
        is_random_id(id),
    ensures
        id_text(id)[14] == '4',
        seq!['8', '9', 'a', 'b'].contains(id_text(id)[19]),
{
    assert((id >> 76) & 0xf == 4) by (bit_vector)
        requires
            id & 0xf000_c000_0000_0000_0000 == 0x4000_8000_0000_0000_0000,
    ;
    assert(8 <= (id >> 60) & 0xf < 12) by (bit_vector)
        requires
            id & 0xf000_c000_0000_0000_0000 == 0x4000_8000_0000_0000_0000,
    ;
    let allowed = seq!['8', '9', 'a', 'b'];
    let value = (id >> 60) & 0xf;
    assert(id_text(id)[14] == digit(id, 12));
    assert(id_text(id)[19] == digit(id, 16));
    assert(allowed[value - 8] == digit(id, 16));
}

/// A text that spells an identifier has as many characters as one of the four forms.
pub proof fn law_spelling_lengths(text: Seq<char>, id: u128)
    requires
        spells(text, id),
    ensures
        text.len() == 32 || text.len() == 36 || text.len() == 38 || text.len() == 45,
{
    reveal_strlit("urn:uuid:");
    reveal_strlit("{");
    reveal_strlit("}");
    assert(text.map_values(|c: char| ascii_lower(c)).len() == text.len());
}

/// An identifier is also spelt by its digits in a row, by its text as a URN, and by its text in
/// braces.
pub proof fn law_other_spellings(id: u128, digits: Seq<char>)
    requires
        digits.len() == 32,
        forall|i: int| 0 <= i < 32 ==> #[trigger] digits[i] == id_text(id)[digit_position(i)],
    ensures
        spells(digits, id),
        spells("urn:uuid:"@ + id_text(id), id),
        spells("{"@ + id_text(id) + "}"@, id),
{
    reveal_strlit("urn:uuid:");
    reveal_strlit("{");
    reveal_strlit("}");
    lemma_digits_are_lower_case(id);
    let urn = "urn:uuid:"@ + id_text(id);
    let braced = "{"@ + id_text(id) + "}"@;
    assert(digits.map_values(|c: char| ascii_lower(c)) =~= simple_text(id)) by {
        assert forall|i: int| 0 <= i < 32 implies ascii_lower(#[trigger] digits[i])
            == simple_text(id)[i] by {
            assert(id_text(id)[digit_position(i)] == digit(id, i));
        }
    }
    assert(urn.map_values(|c: char| ascii_lower(c)) =~= urn);
    assert(braced.map_values(|c: char| ascii_lower(c)) =~= braced);
}

proof fn lemma_digits_are_lower_case(id: u128)
    ensures
        forall|k: int| 0 <= k < 36 ==> ascii_lower(#[trigger] id_text(id)[k]) == id_text(id)[k],
{
    assert forall|k: int| 0 <= k < 36 implies ascii_lower(#[trigger] id_text(id)[k])
        == id_text(id)[k] by {
        let s = (4 * (31 - (k - hyphens_before(k)))) as u128;
        assert((id >> s) & 0xf < 16) by (bit_vector);
    }
}

/// Upper and lower case mean the same.
pub proof fn law_case_does_not_matter(text: Seq<char>, other: Seq<char>, id: u128)
    requires
        text.len() == other.len(),
        forall|i: int|
            0 <= i < text.len() ==> (#[trigger] text[i] == other[i] || ('A' <= text[i] && text[i]
                <= 'Z' && other[i] as int == text[i] as int + 32)),
        spells(other, id),
    ensures
        spells(text, id),
{
    let lower = |c: char| ascii_lower(c);
    assert(text.map_values(lower) =~= other.map_values(lower));
}

} // verus!
