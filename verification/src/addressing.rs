//! Address derivation for the `supply_chain` transaction family.
//!
//! Every entity lives at a 70-character lowercase hex address: a 6-character
//! namespace prefix (the head of the SHA-512 digest of the family name),
//! a 2-character entity-kind tag, and a truncated SHA-512 digest of the
//! entity's identifiers. Truncation makes collisions possible, which is why
//! every address stores a container of entries rather than a single entity.

use vstd::prelude::*;

verus! {

/// The hexadecimal rendering of the SHA-512 digest of a character sequence.
pub uninterp spec fn sha512_hex_of(s: Seq<char>) -> Seq<char>;

/// A lowercase hexadecimal digit.
pub open spec fn is_lower_hex_digit(c: char) -> bool {
    (48 <= c as u32 && c as u32 <= 57) || (97 <= c as u32 && c as u32 <= 102)
}

/// Relies on crypto::sha2::Sha512 through crypto::digest::Digest:
/// `input_str` feeds the string's bytes and `result_str` renders the
/// 512-bit digest as 128 lowercase hexadecimal characters. The digest
/// depends on the input characters alone.
#[verifier::external_body]
pub(crate) fn sha512_hex(s: &str) -> (r: String)
    ensures
        r@ == sha512_hex_of(s@),
        r@.len() == 128,
        forall|i: int| 0 <= i < r@.len() ==> is_lower_hex_digit(#[trigger] r@[i]),
{
    let mut sha = crypto::sha2::Sha512::new();
    crypto::digest::Digest::input_str(&mut sha, s);
    crypto::digest::Digest::result_str(&mut sha)
}

/// Relies on String::push: appends the character to the end of the string.
#[verifier::external_body]
pub(crate) fn push_char(s: &mut String, c: char)
    ensures
        final(s)@ == old(s)@.push(c),
{
    s.push(c);
}

/// The first `num` characters of the SHA-512 hex digest, or the empty
/// sequence when `num` exceeds the digest length. The digest is padded
/// before truncation so that the result's length is `num` whenever
/// `num <= 128`, independently of any fact about the digest itself.
pub open spec fn spec_hash(s: Seq<char>, num: nat) -> Seq<char> {
    if num <= 128 {
        (sha512_hex_of(s) + Seq::new(128, |i: int| '0')).take(num as int)
    } else {
        Seq::empty()
    }
}

/// The 6-character namespace prefix of the family.
pub open spec fn spec_namespace_prefix() -> Seq<char> {
    spec_hash("supply_chain"@, 6)
}

pub open spec fn spec_agent_address(public_key: Seq<char>) -> Seq<char> {
    spec_namespace_prefix() + "ae"@ + spec_hash(public_key, 62)
}

pub open spec fn spec_record_address(record_id: Seq<char>) -> Seq<char> {
    spec_namespace_prefix() + "ec"@ + spec_hash(record_id, 62)
}

pub open spec fn spec_record_type_address(name: Seq<char>) -> Seq<char> {
    spec_namespace_prefix() + "ee"@ + spec_hash(name, 62)
}

pub open spec fn spec_property_address_range(record_id: Seq<char>) -> Seq<char> {
    spec_namespace_prefix() + "ea"@ + spec_hash(record_id, 36)
}

pub open spec fn spec_property_address(
    record_id: Seq<char>,
    property_name: Seq<char>,
    page: u32,
) -> Seq<char> {
    spec_property_address_range(record_id) + spec_hash(property_name, 22) + spec_page_number(page)
}

pub open spec fn spec_proposal_address(record_id: Seq<char>, agent_id: Seq<char>) -> Seq<char> {
    spec_namespace_prefix() + "aa"@ + spec_hash(record_id, 36) + spec_hash(agent_id, 26)
}

/// The hexadecimal digit for a value below sixteen.
pub open spec fn spec_hex_digit(d: int) -> char {
    if d == 0 {
        '0'
    } else if d == 1 {
        '1'
    } else if d == 2 {
        '2'
    } else if d == 3 {
        '3'
    } else if d == 4 {
        '4'
    } else if d == 5 {
        '5'
    } else if d == 6 {
        '6'
    } else if d == 7 {
        '7'
    } else if d == 8 {
        '8'
    } else if d == 9 {
        '9'
    } else if d == 10 {
        'a'
    } else if d == 11 {
        'b'
    } else if d == 12 {
        'c'
    } else if d == 13 {
        'd'
    } else if d == 14 {
        'e'
    } else {
        'f'
    }
}

/// The hexadecimal digits of `n`, most significant first, no leading zeros
/// (a single zero digit for zero itself).
pub open spec fn spec_hex_digits(n: nat) -> Seq<char>
    decreases n,
{
    if n < 16 {
        seq![spec_hex_digit(n as int)]
    } else {
        spec_hex_digits(n / 16).push(spec_hex_digit((n % 16) as int))
    }
}

/// A page number rendered as lowercase hexadecimal, zero-padded to at
/// least four characters.
pub open spec fn spec_page_number(page: u32) -> Seq<char> {
    let digits = spec_hex_digits(page as nat);
    if digits.len() >= 4 {
        digits
    } else {
        Seq::new((4 - digits.len()) as nat, |i: int| '0') + digits
    }
}

/// An address of the shape prefix + two-character tag + digest part is
/// lowercase hex throughout, when its parts are.
proof fn lemma_tag_hex(tag: Seq<char>, r: Seq<char>, prefix: Seq<char>, h: Seq<char>)
    requires
        r == prefix + tag + h,
        prefix.len() == 6,
        tag.len() == 2,
        forall|i: int| 0 <= i < prefix.len() ==> is_lower_hex_digit(#[trigger] prefix[i]),
        forall|i: int| 0 <= i < tag.len() ==> is_lower_hex_digit(#[trigger] tag[i]),
        forall|i: int| 0 <= i < h.len() ==> is_lower_hex_digit(#[trigger] h[i]),
    ensures
        r.len() == 8 + h.len(),
        forall|i: int| 0 <= i < r.len() ==> is_lower_hex_digit(#[trigger] r[i]),
{
    assert forall|i: int| 0 <= i < r.len() implies is_lower_hex_digit(r[i]) by {
        if i < 6 {
            assert(r[i] == prefix[i]);
        } else if i < 8 {
            assert(r[i] == tag[i - 6]);
        } else {
            assert(r[i] == h[i - 8]);
        }
    }
}

/// Every hexadecimal digit character is a lowercase hex digit.
pub proof fn lemma_hex_digit_is_hex(d: int)
    ensures
        is_lower_hex_digit(spec_hex_digit(d)),
{
}

/// Every character of a hex rendering is a lowercase hex digit.
pub proof fn lemma_hex_digits_are_hex(n: nat)
    ensures
        forall|i: int|
            0 <= i < spec_hex_digits(n).len() ==> is_lower_hex_digit(
                #[trigger] spec_hex_digits(n)[i],
            ),
    decreases n,
{
    if n < 16 {
        lemma_hex_digit_is_hex(n as int);
        assert(spec_hex_digits(n) =~= seq![spec_hex_digit(n as int)]);
    } else {
        lemma_hex_digits_are_hex(n / 16);
        lemma_hex_digit_is_hex((n % 16) as int);
        assert forall|i: int|
            0 <= i < spec_hex_digits(n).len() implies is_lower_hex_digit(
            spec_hex_digits(n)[i],
        ) by {
            if i < spec_hex_digits(n / 16).len() {
                assert(spec_hex_digits(n)[i] == spec_hex_digits(n / 16)[i]);
            } else {
                assert(spec_hex_digits(n)[i] == spec_hex_digit((n % 16) as int));
            }
        }
    }
}

/// A page number renders as lowercase hex digits throughout.
pub proof fn lemma_page_number_hex(page: u32)
    ensures
        forall|i: int|
            0 <= i < spec_page_number(page).len() ==> is_lower_hex_digit(
                #[trigger] spec_page_number(page)[i],
            ),
{
    lemma_hex_digits_are_hex(page as nat);
    let digits = spec_hex_digits(page as nat);
    if digits.len() < 4 {
        let pad = Seq::new((4 - digits.len()) as nat, |i: int| '0');
        assert forall|i: int|
            0 <= i < spec_page_number(page).len() implies is_lower_hex_digit(
            spec_page_number(page)[i],
        ) by {
            if i < pad.len() {
                assert(spec_page_number(page)[i] == '0');
            } else {
                assert(spec_page_number(page)[i] == digits[i - pad.len()]);
            }
        }
    }
}

/// A hex rendering of a value below 0x10000 has at most four digits, so
/// its page form is exactly four characters.
pub proof fn lemma_page_number_len(page: u32)
    ensures
        spec_page_number(page).len() >= 4,
        page < 0x10000 ==> spec_page_number(page).len() == 4,
{
    lemma_hex_digits_len(page as nat);
}

/// Bounds on the length of a hex rendering.
pub proof fn lemma_hex_digits_len(n: nat)
    ensures
        spec_hex_digits(n).len() >= 1,
        n < 16 ==> spec_hex_digits(n).len() == 1,
        n < 0x100 ==> spec_hex_digits(n).len() <= 2,
        n < 0x1000 ==> spec_hex_digits(n).len() <= 3,
        n < 0x10000 ==> spec_hex_digits(n).len() <= 4,
    decreases n,
{
    if n >= 16 {
        lemma_hex_digits_len(n / 16);
    }
}

/// The 6-character namespace prefix that scopes the family's addresses.
pub fn get_supply_chain_prefix() -> (r: String)
    ensures
        r@ == spec_namespace_prefix(),
        r@.len() == 6,
        forall|i: int| 0 <= i < r@.len() ==> is_lower_hex_digit(#[trigger] r@[i]),
{
    let h = sha512_hex("supply_chain");
    let p = h.as_str().substring_char(0, 6);
    proof {
        assert(p@ =~= spec_namespace_prefix());
        assert forall|i: int| 0 <= i < p@.len() implies is_lower_hex_digit(p@[i]) by {
            assert(p@[i] == h@[i]);
        }
    }
    p.to_owned()
}

/// The first `num` characters of the SHA-512 hex digest of `to_hash`,
/// or the empty string when `num` exceeds the digest length.
pub fn hash(to_hash: &str, num: usize) -> (r: String)
    ensures
        r@ == spec_hash(to_hash@, num as nat),
        r@.len() == if num <= 128 {
            num as int
        } else {
            0
        },
        forall|i: int| 0 <= i < r@.len() ==> is_lower_hex_digit(#[trigger] r@[i]),
{
    let h = sha512_hex(to_hash);
    if num <= 128 {
        let p = h.as_str().substring_char(0, num);
        proof {
            assert(p@ =~= spec_hash(to_hash@, num as nat));
            assert forall|i: int| 0 <= i < p@.len() implies is_lower_hex_digit(p@[i]) by {
                assert(p@[i] == h@[i]);
            }
        }
        p.to_owned()
    } else {
        String::new()
    }
}

pub fn make_agent_address(identifier: &str) -> (r: String)
    ensures
        r@ == spec_agent_address(identifier@),
        r@.len() == 70,
        forall|i: int| 0 <= i < r@.len() ==> is_lower_hex_digit(#[trigger] r@[i]),
{
    let prefix = get_supply_chain_prefix();
    let h = hash(identifier, 62);
    let r = prefix.concat("ae").concat(h.as_str());
    proof {
        reveal_strlit("ae");
        assert forall|i: int| 0 <= i < "ae"@.len() implies is_lower_hex_digit("ae"@[i]) by {}
        lemma_tag_hex("ae"@, r@, prefix@, h@);
    }
    r
}

pub fn make_record_address(record_id: &str) -> (r: String)
    ensures
        r@ == spec_record_address(record_id@),
        r@.len() == 70,
        forall|i: int| 0 <= i < r@.len() ==> is_lower_hex_digit(#[trigger] r@[i]),
{
    let prefix = get_supply_chain_prefix();
    let h = hash(record_id, 62);
    let r = prefix.concat("ec").concat(h.as_str());
    proof {
        reveal_strlit("ec");
        assert forall|i: int| 0 <= i < "ec"@.len() implies is_lower_hex_digit("ec"@[i]) by {}
        lemma_tag_hex("ec"@, r@, prefix@, h@);
    }
    r
}

pub fn make_record_type_address(name: &str) -> (r: String)
    ensures
        r@ == spec_record_type_address(name@),
        r@.len() == 70,
        forall|i: int| 0 <= i < r@.len() ==> is_lower_hex_digit(#[trigger] r@[i]),
{
    let prefix = get_supply_chain_prefix();
    let h = hash(name, 62);
    let r = prefix.concat("ee").concat(h.as_str());
    proof {
        reveal_strlit("ee");
        assert forall|i: int| 0 <= i < "ee"@.len() implies is_lower_hex_digit("ee"@[i]) by {}
        lemma_tag_hex("ee"@, r@, prefix@, h@);
    }
    r
}

pub fn make_property_address(record_id: &str, property_name: &str, page: u32) -> (r: String)
    ensures
        r@ == spec_property_address(record_id@, property_name@, page),
        r@.len() == 66 + spec_page_number(page).len(),
        page < 0x10000 ==> r@.len() == 70,
        forall|i: int| 0 <= i < r@.len() ==> is_lower_hex_digit(#[trigger] r@[i]),
{
    let range = make_property_address_range(record_id);
    let h = hash(property_name, 22);
    let pn = num_to_page_number(page);
    let r = range.concat(h.as_str()).concat(pn.as_str());
    proof {
        lemma_page_number_len(page);
        lemma_page_number_hex(page);
        assert forall|i: int| 0 <= i < r@.len() implies is_lower_hex_digit(r@[i]) by {
            if i < 44 {
                assert(r@[i] == range@[i]);
            } else if i < 66 {
                assert(r@[i] == h@[i - 44]);
            } else {
                assert(r@[i] == pn@[i - 66]);
            }
        }
    }
    r
}

pub fn make_property_address_range(record_id: &str) -> (r: String)
    ensures
        r@ == spec_property_address_range(record_id@),
        r@.len() == 44,
        forall|i: int| 0 <= i < r@.len() ==> is_lower_hex_digit(#[trigger] r@[i]),
{
    let prefix = get_supply_chain_prefix();
    let h = hash(record_id, 36);
    let r = prefix.concat("ea").concat(h.as_str());
    proof {
        reveal_strlit("ea");
        assert forall|i: int| 0 <= i < "ea"@.len() implies is_lower_hex_digit("ea"@[i]) by {}
        lemma_tag_hex("ea"@, r@, prefix@, h@);
    }
    r
}

/// Renders a page number as lowercase hexadecimal, zero-padded to at
/// least four characters.
pub fn num_to_page_number(page: u32) -> (r: String)
    ensures
        r@ == spec_page_number(page),
        r@.len() >= 4,
        page < 0x10000 ==> r@.len() == 4,
        forall|i: int| 0 <= i < r@.len() ==> is_lower_hex_digit(#[trigger] r@[i]),
{
    proof {
        lemma_page_number_len(page);
        lemma_page_number_hex(page);
    }
    let mut digits: Vec<char> = Vec::new();
    let mut n: u32 = page;
    loop
        invariant_except_break
            spec_hex_digits(page as nat) =~= spec_hex_digits(n as nat) + digits@.reverse(),
        ensures
            spec_hex_digits(page as nat) =~= digits@.reverse(),
        decreases n,
    {
        let ghost pre = digits@;
        let d = hex_digit(n % 16);
        digits.push(d);
        proof {
            assert(digits@ =~= pre.push(spec_hex_digit((n % 16) as int)));
            assert(digits@.reverse() =~= seq![spec_hex_digit((n % 16) as int)] + pre.reverse());
        }
        if n < 16 {
            proof {
                assert(n % 16 == n);
                assert(spec_hex_digits(n as nat) =~= seq![spec_hex_digit(n as int)]);
                assert(spec_hex_digits(page as nat) =~= digits@.reverse());
            }
            break;
        }
        proof {
            assert(spec_hex_digits(n as nat) =~= spec_hex_digits((n / 16) as nat) + seq![
                spec_hex_digit((n % 16) as int),
            ]);
            assert(spec_hex_digits(page as nat) =~= spec_hex_digits((n / 16) as nat)
                + digits@.reverse());
        }
        n = n / 16;
    }
    let ghost base = spec_hex_digits(page as nat);
    while digits.len() < 4
        invariant
            digits@.len() >= base.len(),
            digits@.len() <= 4 || digits@.len() == base.len(),
            digits@.reverse() =~= Seq::new((digits@.len() - base.len()) as nat, |i: int| '0') + base,
        decreases 4 - digits.len(),
    {
        let ghost pre = digits@;
        digits.push('0');
        proof {
            assert(digits@ =~= pre.push('0'));
            assert(digits@.reverse() =~= seq!['0'] + pre.reverse());
            assert(digits@.reverse() =~= Seq::new((digits@.len() - base.len()) as nat, |i: int| '0')
                + base);
        }
    }
    let mut s = String::new();
    let mut i: usize = digits.len();
    proof {
        assert(digits@.skip(i as int).reverse() =~= Seq::<char>::empty());
    }
    while i > 0
        invariant
            i <= digits@.len(),
            s@ =~= digits@.skip(i as int).reverse(),
        decreases i,
    {
        i = i - 1;
        push_char(&mut s, digits[i]);
        proof {
            assert(digits@.skip(i as int).reverse() =~= digits@.skip(i + 1).reverse().push(
                digits@[i as int],
            ));
        }
    }
    proof {
        assert(s@ =~= digits@.reverse());
        if base.len() >= 4 {
            assert(digits@.len() == base.len());
            assert(s@ =~= base);
        } else {
            assert(digits@.len() == 4);
            assert(s@ =~= Seq::new((4 - base.len()) as nat, |i: int| '0') + base);
        }
        assert(s@ =~= spec_page_number(page));
    }
    s
}

/// The hexadecimal digit character for a value below sixteen.
fn hex_digit(d: u32) -> (c: char)
    requires
        d < 16,
    ensures
        c == spec_hex_digit(d as int),
{
    if d == 0 {
        '0'
    } else if d == 1 {
        '1'
    } else if d == 2 {
        '2'
    } else if d == 3 {
        '3'
    } else if d == 4 {
        '4'
    } else if d == 5 {
        '5'
    } else if d == 6 {
        '6'
    } else if d == 7 {
        '7'
    } else if d == 8 {
        '8'
    } else if d == 9 {
        '9'
    } else if d == 10 {
        'a'
    } else if d == 11 {
        'b'
    } else if d == 12 {
        'c'
    } else if d == 13 {
        'd'
    } else if d == 14 {
        'e'
    } else {
        'f'
    }
}

pub fn make_proposal_address(record_id: &str, agent_id: &str) -> (r: String)
    ensures
        r@ == spec_proposal_address(record_id@, agent_id@),
        r@.len() == 70,
        forall|i: int| 0 <= i < r@.len() ==> is_lower_hex_digit(#[trigger] r@[i]),
{
    let prefix = get_supply_chain_prefix();
    let h1 = hash(record_id, 36);
    let h2 = hash(agent_id, 26);
    let r = prefix.concat("aa").concat(h1.as_str()).concat(h2.as_str());
    proof {
        reveal_strlit("aa");
        assert forall|i: int| 0 <= i < r@.len() implies is_lower_hex_digit(r@[i]) by {
            if i < 6 {
                assert(r@[i] == prefix@[i]);
            } else if i < 8 {
                assert(r@[i] == "aa"@[i - 6]);
                assert(is_lower_hex_digit('a'));
            } else if i < 44 {
                assert(r@[i] == h1@[i - 8]);
            } else {
                assert(r@[i] == h2@[i - 44]);
            }
        }
    }
    r
}

} // verus!
