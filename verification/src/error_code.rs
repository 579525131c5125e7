//! Recognizing a program error in the printed form of a failed transaction:
//! either as the custom error code the program returned or by its name.
use vstd::prelude::*;
use vstd::string::StringSliceAdditionalSpecFns;

verus! {

/// The ASCII decimal digits of `n`, most significant first, with no
/// leading zeros.
pub open spec fn decimal_digits(n: nat) -> Seq<u8>
    decreases n,
{
    if n < 10 {
        seq![(48 + n) as u8]
    } else {
        decimal_digits(n / 10).push((48 + n % 10) as u8)
    }
}

/// The text `Custom(<code>)` under which a custom program error is printed.
pub open spec fn custom_error_text(code: u32) -> Seq<u8> {
    seq![67u8, 117, 115, 116, 111, 109, 40] + decimal_digits(code as nat) + seq![41u8]
}

/// Whether `needle` occurs in `haystack` as a contiguous run of bytes.
pub open spec fn contains_bytes(haystack: Seq<u8>, needle: Seq<u8>) -> bool {
    exists|i: int|
        0 <= i && i + needle.len() <= haystack.len() && #[trigger] haystack.subrange(
            i,
            i + needle.len(),
        ) == needle
}

/// Whether the printed failure names the expected error: by its custom code
/// or by its name.
pub open spec fn names_error(printed: Seq<u8>, expected_code: u32, error_name: Seq<u8>) -> bool {
    contains_bytes(printed, custom_error_text(expected_code)) || contains_bytes(
        printed,
        error_name,
    )
}

fn push_decimal(out: &mut Vec<u8>, n: u32)
    ensures
        final(out)@ == old(out)@ + decimal_digits(n as nat),
    decreases n,
{
    if n < 10 {
        out.push(48 + n as u8);
        assert(decimal_digits(n as nat) =~= seq![(48 + n) as u8]);
    } else {
        push_decimal(out, n / 10);
        out.push(48 + (n % 10) as u8);
        assert(decimal_digits(n as nat) == decimal_digits((n / 10) as nat).push(
            (48 + n % 10) as u8,
        ));
    }
}

/// The text `Custom(<code>)` under which a custom program error is printed.
pub fn custom_error_bytes(code: u32) -> (res: Vec<u8>)
    ensures
        res@ == custom_error_text(code),
{
    let mut out: Vec<u8> = vec![67u8, 117, 115, 116, 111, 109, 40];
    push_decimal(&mut out, code);
    out.push(41u8);
    assert(out@ =~= custom_error_text(code));
    out
}

/// Whether `needle` occurs in `haystack` as a contiguous run of bytes.
pub fn contains_slice(haystack: &[u8], needle: &[u8]) -> (res: bool)
    ensures
        res == contains_bytes(haystack@, needle@),
{
    let h = haystack.len();
    let n = needle.len();
    if n > h {
        return false;
    }
    let mut i: usize = 0;
    while i <= h - n
        invariant
            h == haystack@.len(),
            n == needle@.len(),
            n <= h,
            i <= h - n + 1,
            forall|k: int|
                0 <= k < i ==> #[trigger] haystack@.subrange(k, k + n as int) != needle@,
        decreases h - n + 1 - i,
    {
        let mut j: usize = 0;
        while j < n
            invariant
                h == haystack@.len(),
                n == needle@.len(),
                i + n <= h,
                j <= n,
                forall|m: int| 0 <= m < j ==> haystack@[i + m] == needle@[m],
            ensures
                j <= n,
                forall|m: int| 0 <= m < j ==> haystack@[i + m] == needle@[m],
                j < n ==> haystack@[i + j] != needle@[j as int],
            decreases n - j,
        {
            if haystack[i + j] != needle[j] {
                break;
            }
            j = j + 1;
        }
        if j == n {
            assert(haystack@.subrange(i as int, i + n as int) =~= needle@);
            return true;
        }
        assert(haystack@.subrange(i as int, i + n as int)[j as int] != needle@[j as int]);
        i = i + 1;
    }
    assert forall|k: int|
        0 <= k && k + needle@.len() <= haystack@.len() implies #[trigger] haystack@.subrange(
        k,
        k + needle@.len(),
    ) != needle@ by {
        assert(k < i);
    }
    false
}

/// Whether the printed form of a failed transaction names the expected
/// error, by its custom code (`Custom(<code>)`) or by its name.
pub fn error_matches(printed: &str, expected_code: u32, error_name: &str) -> (res: bool)
    ensures
        res == names_error(printed.spec_bytes(), expected_code, error_name.spec_bytes()),
{
    let text = printed.as_bytes();
    let tag = custom_error_bytes(expected_code);
    if contains_slice(text, tag.as_slice()) {
        return true;
    }
    contains_slice(text, error_name.as_bytes())
}

/// The number that a run of ASCII decimal digits spells.
pub open spec fn decimal_value(digits: Seq<u8>) -> int
    decreases digits.len(),
{
    if digits.len() == 0 {
        0
    } else {
        decimal_value(digits.drop_last()) * 10 + (digits.last() - 48)
    }
}

/// The digits of `n` are ASCII decimal digits, at least one of them, and
/// spell `n` back.
pub proof fn lemma_decimal_digits_spell(n: nat)
    ensures
        decimal_digits(n).len() >= 1,
        forall|k: int|
            0 <= k < decimal_digits(n).len() ==> 48 <= #[trigger] decimal_digits(n)[k] <= 57,
        decimal_value(decimal_digits(n)) == n,
    decreases n,
{
    if n >= 10 {
        lemma_decimal_digits_spell(n / 10);
        let d = decimal_digits(n);
        assert(d.drop_last() =~= decimal_digits(n / 10));
        assert(d.last() == (48 + n % 10) as u8);
        assert(d.last() - 48 == n % 10);
        assert((n / 10) * 10 + n % 10 == n);
        assert forall|k: int| 0 <= k < d.len() implies 48 <= #[trigger] d[k] <= 57 by {
            if k < d.len() - 1 {
                assert(d[k] == decimal_digits(n / 10)[k]);
            }
        }
    } else {
        let d = decimal_digits(n);
        assert(d.drop_last() =~= Seq::<u8>::empty());
        assert(decimal_value(d.drop_last()) == 0);
        assert(d.last() == (48 + n) as u8);
    }
}

proof fn lemma_custom_text_shape(code: u32)
    ensures
        ({
            let t = custom_error_text(code);
            &&& t.len() >= 9
            &&& t[0] == 67u8
            &&& t[t.len() - 1] == 41u8
            &&& forall|k: int| 0 < k < t.len() ==> #[trigger] t[k] != 67u8
            &&& forall|k: int| 0 <= k < t.len() - 1 ==> #[trigger] t[k] != 41u8
            &&& t.subrange(7, t.len() - 1) == decimal_digits(code as nat)
        }),
{
    let d = decimal_digits(code as nat);
    lemma_decimal_digits_spell(code as nat);
    let t = custom_error_text(code);
    assert forall|k: int| 7 <= k < t.len() - 1 implies t[k] == d[k - 7] by {}
    assert(t.subrange(7, t.len() - 1) =~= d);
}

/// Where a run of bytes is found: after any prefix and before any suffix it
/// is found, the empty run is found everywhere, and a run longer than the
/// bytes searched is never found.
pub proof fn lemma_contains_bytes_cases(prefix: Seq<u8>, needle: Seq<u8>, suffix: Seq<u8>)
    ensures
        contains_bytes(prefix + needle + suffix, needle),
        contains_bytes(prefix, Seq::<u8>::empty()),
        needle.len() > prefix.len() ==> !contains_bytes(prefix, needle),
{
    let h = prefix + needle + suffix;
    assert(h.subrange(prefix.len() as int, (prefix.len() + needle.len()) as int) =~= needle);
    let e = Seq::<u8>::empty();
    assert(prefix.subrange(0, 0 + e.len() as int) =~= e);
}

/// The printed failure names the expected error exactly when the error's
/// name, or the text `Custom(` followed by the decimal digits of the code
/// and `)`, occurs in it at some position.
pub proof fn lemma_error_named_by_code_or_name(
    printed: Seq<u8>,
    code: u32,
    name: Seq<u8>,
    at: int,
)
    ensures
        0 <= at && at + name.len() <= printed.len() && printed.subrange(at, at + name.len()) == name
            ==> names_error(printed, code, name),
        ({
            let tag = seq![67u8, 117, 115, 116, 111, 109, 40] + decimal_digits(code as nat) + seq![
                41u8,
            ];
            0 <= at && at + tag.len() <= printed.len() && printed.subrange(at, at + tag.len())
                == tag ==> names_error(printed, code, name)
        }),
        names_error(printed, code, name) ==> (exists|i: int|
            0 <= i && i + name.len() <= printed.len() && #[trigger] printed.subrange(
                i,
                i + name.len(),
            ) == name) || (exists|i: int|
            0 <= i && i + custom_error_text(code).len() <= printed.len()
                && #[trigger] printed.subrange(i, i + custom_error_text(code).len())
                == custom_error_text(code)),
{
}

/// The text `Custom(<code>)` is `Custom(`, then decimal digits that spell
/// the code back, then `)`.
pub proof fn lemma_custom_error_text_spells_code(code: u32)
    ensures
        ({
            let t = custom_error_text(code);
            &&& t.len() >= 9
            &&& t.subrange(0, 7) == seq![67u8, 117, 115, 116, 111, 109, 40]
            &&& t[t.len() - 1] == 41u8
            &&& decimal_value(t.subrange(7, t.len() - 1)) == code
            &&& forall|k: int| 7 <= k < t.len() - 1 ==> 48 <= #[trigger] t[k] <= 57
        }),
{
    lemma_custom_text_shape(code);
    lemma_decimal_digits_spell(code as nat);
    let t = custom_error_text(code);
    assert(t.subrange(0, 7) =~= seq![67u8, 117, 115, 116, 111, 109, 40]);
    assert forall|k: int| 7 <= k < t.len() - 1 implies 48 <= #[trigger] t[k] <= 57 by {
        assert(t[k] == t.subrange(7, t.len() - 1)[k - 7]);
    }
}

/// One error code is never mistaken for another: the printed form of a
/// custom error code occurs in that of another code only if the two codes
/// are equal.
pub proof fn lemma_custom_codes_distinct(a: u32, b: u32)
    requires
        contains_bytes(custom_error_text(b), custom_error_text(a)),
    ensures
        a == b,
{
    let ta = custom_error_text(a);
    let tb = custom_error_text(b);
    lemma_custom_text_shape(a);
    lemma_custom_text_shape(b);
    let i = choose|i: int|
        0 <= i && i + ta.len() <= tb.len() && #[trigger] tb.subrange(i, i + ta.len()) == ta;
    assert(tb.subrange(i, i + ta.len())[0] == ta[0]);
    assert(i == 0);
    assert(tb.subrange(i, i + ta.len())[ta.len() - 1] == ta[ta.len() - 1]);
    assert(ta.len() == tb.len());
    assert(tb.subrange(0, tb.len() as int) =~= tb);
    assert(ta.subrange(7, ta.len() - 1) == tb.subrange(7, tb.len() - 1));
    lemma_decimal_digits_spell(a as nat);
    lemma_decimal_digits_spell(b as nat);
}

} // verus!
