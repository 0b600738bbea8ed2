//! Address resolution: parse a VISA-style resource address into a transport
//! family and its transport-specific fields.
//!
//! Grammar: segments separated by the literal delimiter `::`. Segment 0 names
//! the interface family. Any first segment containing `USB` routes to the
//! USBTMC family: the match is deliberately by substring, not equality, so
//! that qualified tags such as `USB0` are tolerated — which also means a tag
//! like `USBFOO` is accepted. For the USB family, segments 1 and 2 are read
//! as 16-bit hexadecimal integers: an optional `0x` prefix is stripped, then
//! an optional `+` sign is accepted, then one or more hex digits whose value
//! must fit in 16 bits. Remaining segments (serial number, resource class
//! suffix such as `INSTR`) are captured and passed through uninterpreted.

use vstd::prelude::*;
use vstd::string::*;

use crate::error::AddressError;

verus! {

/// The transport families an address can select. Only USBTMC is implemented;
/// the enum is the single place a new family is added.
#[derive(Clone, Copy, Debug, PartialEq, Eq, Structural)]
pub enum InterfaceFamily {
    Usb,
}

/// True when the two characters at `i` are the segment delimiter `::`.
pub open spec fn is_delim_at(s: Seq<char>, i: int) -> bool {
    &&& 0 <= i
    &&& i + 2 <= s.len()
    &&& s[i] == ':'
    &&& s[i + 1] == ':'
}

/// Index of the first `::` in `s`, or `s.len()` when there is none.
pub open spec fn first_delim(s: Seq<char>) -> int
    decreases s.len(),
{
    if s.len() < 2 {
        s.len() as int
    } else if s[0] == ':' && s[1] == ':' {
        0
    } else {
        1 + first_delim(s.subrange(1, s.len() as int))
    }
}

/// `first_delim` finds the leftmost delimiter, or `s.len()` when none exists.
pub proof fn lemma_first_delim(s: Seq<char>)
    ensures
        0 <= first_delim(s) <= s.len(),
        first_delim(s) + 2 <= s.len() ==> is_delim_at(s, first_delim(s)),
        forall|j: int| 0 <= j < first_delim(s) ==> !is_delim_at(s, j),
        first_delim(s) + 2 > s.len() ==> first_delim(s) == s.len(),
    decreases s.len(),
{
    if s.len() < 2 {
    } else if s[0] == ':' && s[1] == ':' {
    } else {
        let t = s.subrange(1, s.len() as int);
        lemma_first_delim(t);
        assert forall|j: int| 0 <= j < first_delim(s) implies !is_delim_at(s, j) by {
            if j == 0 {
                assert(!(s[0] == ':' && s[1] == ':'));
            } else {
                assert(!is_delim_at(t, j - 1));
                assert(t[j - 1] == s[j]);
                assert(j + 1 < s.len() ==> t[j] == s[j + 1]);
            }
        }
        if first_delim(s) + 2 <= s.len() {
            let i = first_delim(s);
            assert(is_delim_at(t, i - 1));
            assert(s[i] == t[i - 1]);
            assert(s[i + 1] == t[i]);
        }
    }
}

/// The segments of `s`: split on each non-overlapping `::`, left to right.
/// Always yields at least one segment; an input without `::` is one segment.
pub open spec fn split_segments(s: Seq<char>) -> Seq<Seq<char>>
    decreases s.len(),
{
    let i = first_delim(s);
    if 0 <= i && i + 2 <= s.len() {
        seq![s.subrange(0, i)] + split_segments(s.subrange(i + 2, s.len() as int))
    } else {
        seq![s]
    }
}

/// Splitting yields at least one segment.
pub proof fn lemma_split_segments_len(s: Seq<char>)
    ensures
        split_segments(s).len() >= 1,
    decreases s.len(),
{
    let i = first_delim(s);
    if 0 <= i && i + 2 <= s.len() {
        lemma_split_segments_len(s.subrange(i + 2, s.len() as int));
    }
}

/// The tag that routes an address to the USBTMC family.
pub open spec fn usb_tag() -> Seq<char> {
    seq!['U', 'S', 'B']
}

/// True when `sub` occurs in `s` starting at index `i`.
pub open spec fn occurs_at(s: Seq<char>, sub: Seq<char>, i: int) -> bool {
    &&& 0 <= i
    &&& i + sub.len() <= s.len()
    &&& s.subrange(i, i + sub.len() as int) == sub
}

/// True when `sub` occurs somewhere in `s` (substring match).
pub open spec fn contains_sub(s: Seq<char>, sub: Seq<char>) -> bool {
    exists|i: int| occurs_at(s, sub, i)
}

/// True for the characters `0-9`, `a-f`, `A-F`.
pub open spec fn is_hex_digit(c: char) -> bool {
    ||| '0' <= c && c <= '9'
    ||| 'a' <= c && c <= 'f'
    ||| 'A' <= c && c <= 'F'
}

/// Numeric value of a hex digit (0 for a character that is not one).
pub open spec fn hex_digit_val(c: char) -> nat {
    if '0' <= c && c <= '9' {
        (c as nat - '0' as nat) as nat
    } else if 'a' <= c && c <= 'f' {
        (c as nat - 'a' as nat + 10) as nat
    } else if 'A' <= c && c <= 'F' {
        (c as nat - 'A' as nat + 10) as nat
    } else {
        0
    }
}

/// Value of a string of hex digits, most significant first.
pub open spec fn hex_val(s: Seq<char>) -> nat
    decreases s.len(),
{
    if s.len() == 0 {
        0
    } else {
        16 * hex_val(s.drop_last()) + hex_digit_val(s.last())
    }
}

/// Every character of `s` is a hex digit.
pub open spec fn all_hex(s: Seq<char>) -> bool {
    forall|i: int| 0 <= i < s.len() ==> is_hex_digit(#[trigger] s[i])
}

/// `s` without a leading `0x`, if it has one (the prefix is case-sensitive,
/// exactly `0x`).
pub open spec fn strip_radix_prefix(s: Seq<char>) -> Seq<char> {
    if s.len() >= 2 && s[0] == '0' && s[1] == 'x' {
        s.subrange(2, s.len() as int)
    } else {
        s
    }
}

/// `s` without a single leading `+`, if it has one. Numeric parsing of
/// unsigned values accepts one optional leading plus sign.
pub open spec fn strip_plus_sign(s: Seq<char>) -> Seq<char> {
    if s.len() >= 1 && s[0] == '+' {
        s.subrange(1, s.len() as int)
    } else {
        s
    }
}

/// The digit characters of a numeric field: the field after `0x` stripping
/// and sign stripping, in that order.
pub open spec fn field_digits(s: Seq<char>) -> Seq<char> {
    strip_plus_sign(strip_radix_prefix(s))
}

/// True when a numeric field is well-formed: at least one digit, all digits
/// hexadecimal, and a value that fits in 16 bits.
pub open spec fn field_ok(s: Seq<char>) -> bool {
    &&& field_digits(s).len() > 0
    &&& all_hex(field_digits(s))
    &&& hex_val(field_digits(s)) <= 0xFFFF
}

/// The value of a well-formed numeric field.
pub open spec fn field_val(s: Seq<char>) -> nat {
    hex_val(field_digits(s))
}

/// `hex_val` never shrinks when digits are appended: the value of a prefix is
/// a lower bound for the value of the whole string.
pub proof fn lemma_hex_val_prefix_bound(s: Seq<char>, j: int)
    requires
        0 <= j <= s.len(),
    ensures
        hex_val(s) >= hex_val(s.take(j)),
    decreases s.len(),
{
    if j < s.len() {
        let t = s.drop_last();
        assert(t.take(j) =~= s.take(j));
        lemma_hex_val_prefix_bound(t, j);
    } else {
        assert(s.take(j) =~= s);
    }
}

/// The character views of a sequence of owned strings.
pub open spec fn views_of(v: Seq<String>) -> Seq<Seq<char>> {
    v.map_values(|t: String| t@)
}

/// Index of the first `::` in `s`, or the length of `s` when there is none.
fn find_delim_index(s: &str) -> (r: usize)
    ensures
        r as int == first_delim(s@),
{
    proof {
        lemma_first_delim(s@);
    }
    let n = s.unicode_len();
    if n < 2 {
        return n;
    }
    let mut i: usize = 0;
    while i <= n - 2
        invariant
            n == s@.len(),
            n >= 2,
            i <= n - 1,
            forall|j: int| 0 <= j < i ==> !is_delim_at(s@, j),
        ensures
            (i as int == first_delim(s@)) || (i + 2 > n && forall|j: int|
                0 <= j < i ==> !is_delim_at(s@, j)),
        decreases n - i,
    {
        let c0 = s.get_char(i);
        let c1 = s.get_char(i + 1);
        if c0 == ':' && c1 == ':' {
            proof {
                assert(is_delim_at(s@, i as int));
                lemma_first_delim(s@);
            }
            break;
        }
        i = i + 1;
    }
    if i <= n - 2 {
        i
    } else {
        proof {
            assert(first_delim(s@) + 2 <= s@.len() ==> is_delim_at(
                s@,
                first_delim(s@),
            )) by {
                lemma_first_delim(s@);
            }
        }
        n
    }
}

/// Split an address into its `::`-separated segments.
///
/// Always returns at least one segment; segments may be empty.
pub fn split_address(s: &str) -> (segs: Vec<String>)
    ensures
        views_of(segs@) == split_segments(s@),
{
    let mut segs: Vec<String> = Vec::new();
    let mut rest: &str = s;
    proof {
        assert(views_of(segs@) + split_segments(rest@) =~= split_segments(s@));
    }
    loop
        invariant_except_break
            views_of(segs@) + split_segments(rest@) == split_segments(s@),
        ensures
            views_of(segs@) == split_segments(s@),
        decreases rest@.len(),
    {
        let n = rest.unicode_len();
        let d = find_delim_index(rest);
        proof {
            lemma_first_delim(rest@);
        }
        if n >= 2 && d <= n - 2 {
            let ghost r0 = rest@;
            let ghost m0 = views_of(segs@);
            let piece = rest.substring_char(0, d);
            segs.push(piece.to_owned());
            rest = rest.substring_char(d + 2, n);
            proof {
                assert(split_segments(r0) == seq![r0.subrange(0, d as int)] + split_segments(
                    r0.subrange(d + 2, r0.len() as int),
                ));
                assert(views_of(segs@) =~= m0.push(piece@));
                assert(views_of(segs@) + split_segments(rest@) =~= split_segments(s@));
            }
        } else {
            let ghost r0 = rest@;
            let ghost m0 = views_of(segs@);
            segs.push(rest.to_owned());
            proof {
                assert(split_segments(r0) == seq![r0]);
                assert(views_of(segs@) =~= m0.push(r0));
                assert(views_of(segs@) =~= split_segments(s@));
            }
            break;
        }
    }
    segs
}

/// An occurrence of the USB tag pins down the three characters at `i`.
proof fn lemma_occurrence_chars(s: Seq<char>, i: int)
    requires
        occurs_at(s, usb_tag(), i),
    ensures
        s[i] == 'U' && s[i + 1] == 'S' && s[i + 2] == 'B',
{
    assert(s.subrange(i, i + 3)[0] == s[i]);
    assert(s.subrange(i, i + 3)[1] == s[i + 1]);
    assert(s.subrange(i, i + 3)[2] == s[i + 2]);
}

/// The three characters `U`, `S`, `B` in a row form an occurrence of the tag.
proof fn lemma_chars_occurrence(s: Seq<char>, i: int)
    requires
        0 <= i,
        i + 3 <= s.len(),
        s[i] == 'U' && s[i + 1] == 'S' && s[i + 2] == 'B',
    ensures
        occurs_at(s, usb_tag(), i),
{
    assert(s.subrange(i, i + 3) =~= usb_tag());
}

/// Whether the interface tag `USB` occurs anywhere in `s`.
fn contains_usb_tag(s: &str) -> (r: bool)
    ensures
        r == contains_sub(s@, usb_tag()),
{
    let n = s.unicode_len();
    if n < 3 {
        proof {
            assert forall|i: int| !occurs_at(s@, usb_tag(), i) by {}
        }
        return false;
    }
    let mut i: usize = 0;
    let mut found = false;
    while i <= n - 3 && !found
        invariant_except_break
            n == s@.len(),
            n >= 3,
            i <= n - 2,
            !found,
            forall|j: int| 0 <= j < i ==> !occurs_at(s@, usb_tag(), j),
        ensures
            (found && contains_sub(s@, usb_tag())) || (!found && i + 3 > n && forall|j: int|
                0 <= j < i ==> !occurs_at(s@, usb_tag(), j)),
        decreases n - i,
    {
        let c0 = s.get_char(i);
        let c1 = s.get_char(i + 1);
        let c2 = s.get_char(i + 2);
        if c0 == 'U' && c1 == 'S' && c2 == 'B' {
            found = true;
            proof {
                lemma_chars_occurrence(s@, i as int);
            }
            break;
        }
        proof {
            if occurs_at(s@, usb_tag(), i as int) {
                lemma_occurrence_chars(s@, i as int);
            }
        }
        i = i + 1;
    }
    if !found {
        proof {
            assert forall|j: int| !occurs_at(s@, usb_tag(), j) by {
                if 0 <= j < i {
                } else {
                    assert(j < 0 || j + 3 > n);
                }
            }
        }
    }
    found
}

/// Parse one numeric field: optional `0x` prefix, optional `+` sign, then one
/// or more hex digits whose value must fit in 16 bits.
pub fn parse_field(seg: &str) -> (r: Option<u16>)
    ensures
        match r {
            Some(v) => field_ok(seg@) && v as nat == field_val(seg@),
            None => !field_ok(seg@),
        },
{
    let n = seg.unicode_len();
    let unprefixed: &str = if n >= 2 && seg.get_char(0) == '0' && seg.get_char(1) == 'x' {
        seg.substring_char(2, n)
    } else {
        seg
    };
    proof {
        assert(unprefixed@ == strip_radix_prefix(seg@));
    }
    let n0 = unprefixed.unicode_len();
    let digits: &str = if n0 >= 1 && unprefixed.get_char(0) == '+' {
        unprefixed.substring_char(1, n0)
    } else {
        unprefixed
    };
    proof {
        assert(digits@ == field_digits(seg@));
    }
    let m = digits.unicode_len();
    if m == 0 {
        return None;
    }
    let mut acc: u32 = 0;
    let mut i: usize = 0;
    while i < m
        invariant
            m == digits@.len(),
            digits@ == field_digits(seg@),
            i <= m,
            all_hex(digits@.take(i as int)),
            acc as nat == hex_val(digits@.take(i as int)),
            acc <= 0xFFFF,
        decreases m - i,
    {
        let c = digits.get_char(i);
        let cv = c as u32;
        if !(cv >= 48 && cv <= 57 || cv >= 97 && cv <= 102 || cv >= 65 && cv <= 70) {
            proof {
                assert(!is_hex_digit(digits@[i as int]));
            }
            return None;
        }
        let dv: u32 = if cv <= 57 {
            cv - 48
        } else if cv >= 97 {
            cv - 87
        } else {
            cv - 55
        };
        proof {
            assert(is_hex_digit(c));
            assert(dv as nat == hex_digit_val(c));
        }
        let next: u32 = acc * 16 + dv;
        proof {
            assert(digits@.take(i + 1 as int).drop_last() =~= digits@.take(i as int));
            assert(digits@.take(i + 1 as int).last() == digits@[i as int]);
            assert(next as nat == hex_val(digits@.take(i + 1 as int)));
        }
        if next > 0xFFFF {
            proof {
                lemma_hex_val_prefix_bound(digits@, i + 1 as int);
                assert(hex_val(digits@) > 0xFFFF);
            }
            return None;
        }
        proof {
            assert forall|j: int| 0 <= j < i + 1 implies is_hex_digit(
                #[trigger] digits@.take(i + 1 as int)[j],
            ) by {
                if j < i {
                    assert(digits@.take(i as int)[j] == digits@.take(i + 1 as int)[j]);
                }
            }
        }
        acc = next;
        i = i + 1;
    }
    proof {
        assert(digits@.take(m as int) =~= digits@);
    }
    Some(acc as u16)
}

/// The mathematical value of a resolved address: which family it selects,
/// the two parsed identifiers, and the uninterpreted trailing segments.
#[verifier::ext_equal]
pub ghost struct ResolvedView {
    pub family: InterfaceFamily,
    pub vid: u16,
    pub pid: u16,
    pub rest: Seq<Seq<char>>,
}

/// A successfully resolved address: the transport family, the parsed
/// vendor and product identifiers, and the trailing segments (serial number,
/// resource class suffix) captured uninterpreted for the connector.
#[derive(Debug)]
pub struct ResolvedAddress {
    pub family: InterfaceFamily,
    pub vid: u16,
    pub pid: u16,
    pub rest: Vec<String>,
}

impl View for ResolvedAddress {
    type V = ResolvedView;

    open spec fn view(&self) -> ResolvedView {
        ResolvedView {
            family: self.family,
            vid: self.vid,
            pid: self.pid,
            rest: views_of(self.rest@),
        }
    }
}

/// What resolution returns, for every input.
///
/// The interface tag is examined first: an address whose first segment does
/// not contain `USB` is rejected before any field is looked at. A USB address
/// must have at least three segments; its second and third segment must be
/// well-formed 16-bit hex fields (vendor ID checked before product ID).
pub open spec fn resolve_spec(s: Seq<char>) -> Result<ResolvedView, AddressError> {
    let segs = split_segments(s);
    if !contains_sub(segs[0], usb_tag()) {
        Err(AddressError::UnrecognizedInterface)
    } else if segs.len() < 3 {
        Err(AddressError::MissingField)
    } else if !field_ok(segs[1]) {
        Err(AddressError::MalformedField)
    } else if !field_ok(segs[2]) {
        Err(AddressError::MalformedField)
    } else {
        Ok(
            ResolvedView {
                family: InterfaceFamily::Usb,
                vid: field_val(segs[1]) as u16,
                pid: field_val(segs[2]) as u16,
                rest: segs.subrange(3, segs.len() as int),
            },
        )
    }
}

/// Resolve a resource address string.
///
/// Returns exactly what [`resolve_spec`] says: the parsed identifiers and
/// trailing segments on success, and the first applicable [`AddressError`]
/// otherwise. Resolution is all-or-nothing; no partial state is produced on
/// failure.
pub fn resolve(address: &str) -> (r: Result<ResolvedAddress, AddressError>)
    ensures
        match r {
            Ok(ra) => resolve_spec(address@) == Ok::<ResolvedView, AddressError>(ra@),
            Err(e) => resolve_spec(address@) == Err::<ResolvedView, AddressError>(e),
        },
{
    let segs = split_address(address);
    proof {
        lemma_split_segments_len(address@);
        assert(views_of(segs@).len() == segs@.len());
    }
    let ghost model = split_segments(address@);
    proof {
        assert(model[0] == segs@[0]@);
    }
    if !contains_usb_tag(segs[0].as_str()) {
        return Err(AddressError::UnrecognizedInterface);
    }
    if segs.len() < 3 {
        return Err(AddressError::MissingField);
    }
    proof {
        assert(model[1] == segs@[1]@);
        assert(model[2] == segs@[2]@);
    }
    let vid: u16 = match parse_field(segs[1].as_str()) {
        Some(v) => v,
        None => { return Err(AddressError::MalformedField) },
    };
    let pid: u16 = match parse_field(segs[2].as_str()) {
        Some(v) => v,
        None => { return Err(AddressError::MalformedField) },
    };
    let mut rest: Vec<String> = Vec::new();
    let mut i: usize = 3;
    while i < segs.len()
        invariant
            3 <= i <= segs.len(),
            model == views_of(segs@),
            segs.len() == model.len(),
            views_of(rest@) == model.subrange(3, i as int),
        decreases segs.len() - i,
    {
        let ghost r0 = views_of(rest@);
        rest.push(segs[i].clone());
        proof {
            assert(views_of(rest@) =~= r0.push(segs@[i as int]@));
            assert(views_of(rest@) =~= model.subrange(3, i + 1 as int));
        }
        i = i + 1;
    }
    let ra = ResolvedAddress { family: InterfaceFamily::Usb, vid, pid, rest };
    proof {
        assert(views_of(rest@) =~= model.subrange(3, model.len() as int));
        assert(ra@ =~= resolve_spec(address@)->Ok_0);
    }
    Ok(ra)
}

/// Writing a numeric field with a `0x` prefix is equivalent to writing its
/// bare hex digits: both are well-formed under the same condition and carry
/// the same value, and prefix stripping never fires twice (a bare hex-digit
/// field has nothing stripped from it).
pub proof fn lemma_hex_prefix_equivalent(d: Seq<char>)
    requires
        d.len() > 0,
        all_hex(d),
    ensures
        field_digits(seq!['0', 'x'] + d) == d,
        field_digits(d) == d,
        field_ok(seq!['0', 'x'] + d) == field_ok(d),
        field_val(seq!['0', 'x'] + d) == field_val(d),
{
    let p = seq!['0', 'x'] + d;
    assert(p[0] == '0' && p[1] == 'x');
    assert(strip_radix_prefix(p) =~= d);
    assert(is_hex_digit(d[0]));
    assert(d[0] != '+');
    assert(strip_plus_sign(d) =~= d);
    if d.len() >= 2 {
        assert(is_hex_digit(d[1]));
        assert(d[1] != 'x');
    }
    assert(strip_radix_prefix(d) =~= d);
}

/// Two valid USB addresses that differ only in writing the vendor and
/// product fields with or without the `0x` prefix resolve to the identical
/// (vid, pid) pair.
pub proof fn lemma_resolution_prefix_equivalent(a: Seq<char>, b: Seq<char>)
    requires
        contains_sub(split_segments(a)[0], usb_tag()),
        split_segments(a).len() >= 3,
        split_segments(b).len() == split_segments(a).len(),
        split_segments(b)[0] == split_segments(a)[0],
        split_segments(a)[1].len() > 0 && all_hex(split_segments(a)[1]),
        split_segments(a)[2].len() > 0 && all_hex(split_segments(a)[2]),
        hex_val(split_segments(a)[1]) <= 0xFFFF,
        hex_val(split_segments(a)[2]) <= 0xFFFF,
        split_segments(b)[1] == seq!['0', 'x'] + split_segments(a)[1],
        split_segments(b)[2] == seq!['0', 'x'] + split_segments(a)[2],
    ensures
        resolve_spec(a) is Ok,
        resolve_spec(b) is Ok,
        resolve_spec(b)->Ok_0.vid == resolve_spec(a)->Ok_0.vid,
        resolve_spec(b)->Ok_0.pid == resolve_spec(a)->Ok_0.pid,
{
    let a1 = split_segments(a)[1];
    let a2 = split_segments(a)[2];
    lemma_hex_prefix_equivalent(a1);
    lemma_hex_prefix_equivalent(a2);
    assert(field_ok(a1) && field_ok(a2));
}

/// An address whose first segment does not contain `USB` fails with
/// `UnrecognizedInterface`, whatever its remaining segments hold: no field is
/// ever interpreted for it.
pub proof fn lemma_unrecognized_interface(s: Seq<char>)
    requires
        !contains_sub(split_segments(s)[0], usb_tag()),
    ensures
        resolve_spec(s) == Err::<ResolvedView, AddressError>(AddressError::UnrecognizedInterface),
{
}

/// A USB-tagged address with fewer than three segments fails with
/// `MissingField`: the vendor and product fields are mandatory.
pub proof fn lemma_missing_field(s: Seq<char>)
    requires
        contains_sub(split_segments(s)[0], usb_tag()),
        split_segments(s).len() < 3,
    ensures
        resolve_spec(s) == Err::<ResolvedView, AddressError>(AddressError::MissingField),
{
}

/// A USB-tagged address whose vendor or product field is not well-formed
/// hexadecimal — no digits, a non-hex character, or a value over 16 bits —
/// fails with `MalformedField`.
pub proof fn lemma_malformed_field(s: Seq<char>)
    requires
        contains_sub(split_segments(s)[0], usb_tag()),
        split_segments(s).len() >= 3,
        !field_ok(split_segments(s)[1]) || !field_ok(split_segments(s)[2]),
    ensures
        resolve_spec(s) == Err::<ResolvedView, AddressError>(AddressError::MalformedField),
{
}

} // verus!
