//! Reading the text that the external scripts print.
use vstd::prelude::*;
use vstd::string::*;
use vstd::utf8::*;

verus! {

/// Whether `c` has Unicode's `White_Space` property (PropList.txt), which is
/// what `char::is_whitespace` tests: the controls U+0009 to U+000D, the space,
/// U+0085, the no-break space U+00A0, U+1680, the spaces U+2000 to U+200A, the
/// line and paragraph separators U+2028 and U+2029, U+202F, U+205F and U+3000.
pub open spec fn is_white_space(c: char) -> bool {
    let v = c as u32;
    ||| 0x9 <= v <= 0xd
    ||| v == 0x20
    ||| v == 0x85
    ||| v == 0xa0
    ||| v == 0x1680
    ||| 0x2000 <= v <= 0x200a
    ||| v == 0x2028
    ||| v == 0x2029
    ||| v == 0x202f
    ||| v == 0x205f
    ||| v == 0x3000
}

/// Whether `c` is white space, as `char::is_whitespace` answers it.
pub fn char_is_whitespace(c: char) -> (r: bool)
    ensures
        r == is_white_space(c),
{
    let v = c as u32;
    (0x9 <= v && v <= 0xd) || v == 0x20 || v == 0x85 || v == 0xa0 || v == 0x1680 || (0x2000 <= v
        && v <= 0x200a) || v == 0x2028 || v == 0x2029 || v == 0x202f || v == 0x205f || v == 0x3000
}

/// Calls `String::from_utf8`: it succeeds exactly on well-formed UTF-8, and
/// the string it returns is made of the very bytes it was given.
#[verifier::external_body]
pub(crate) fn string_from_utf8(bytes: Vec<u8>) -> (r: Option<String>)
    ensures
        r is Some <==> valid_utf8(bytes@),
        r matches Some(s) ==> encode_utf8(s@) == bytes@,
{
    String::from_utf8(bytes).ok()
}

/// `s` without its leading white space.
pub open spec fn trim_front(s: Seq<char>) -> Seq<char>
    decreases s.len(),
{
    if s.len() > 0 && is_white_space(s[0]) {
        trim_front(s.drop_first())
    } else {
        s
    }
}

/// `s` without its trailing white space.
pub open spec fn trim_back(s: Seq<char>) -> Seq<char>
    decreases s.len(),
{
    if s.len() > 0 && is_white_space(s.last()) {
        trim_back(s.drop_last())
    } else {
        s
    }
}

/// `s` without leading and trailing white space, as `str::trim` gives it.
pub open spec fn trim_white_space(s: Seq<char>) -> Seq<char> {
    trim_back(trim_front(s))
}

/// The characters of a byte sequence that `String::from_utf8` accepts.
pub open spec fn utf8_text(bytes: Seq<u8>) -> Option<Seq<char>> {
    if valid_utf8(bytes) {
        Some(decode_utf8(bytes))
    } else {
        None
    }
}

/// What `trim_front` leaves starts with no white space.
pub proof fn lemma_trim_front_start(s: Seq<char>)
    ensures
        trim_front(s).len() > 0 ==> !is_white_space(trim_front(s)[0]),
    decreases s.len(),
{
    if s.len() > 0 && is_white_space(s[0]) {
        lemma_trim_front_start(s.drop_first());
    }
}

/// What `trim_back` leaves is a prefix of its input that ends with no white space.
pub proof fn lemma_trim_back_prefix(s: Seq<char>)
    ensures
        trim_back(s).len() <= s.len(),
        trim_back(s) == s.subrange(0, trim_back(s).len() as int),
        trim_back(s).len() > 0 ==> !is_white_space(trim_back(s).last()),
    decreases s.len(),
{
    if s.len() > 0 && is_white_space(s.last()) {
        lemma_trim_back_prefix(s.drop_last());
        assert(s.drop_last().subrange(0, trim_back(s).len() as int) =~= s.subrange(
            0,
            trim_back(s).len() as int,
        ));
    } else {
        assert(s.subrange(0, s.len() as int) =~= s);
    }
}

/// Trimmed text starts and ends with something other than white space.
pub proof fn lemma_trim_ends(s: Seq<char>)
    ensures
        trim_white_space(s).len() > 0 ==> !is_white_space(trim_white_space(s)[0]),
        trim_white_space(s).len() > 0 ==> !is_white_space(trim_white_space(s).last()),
{
    let f = trim_front(s);
    lemma_trim_front_start(s);
    lemma_trim_back_prefix(f);
    let r = trim_back(f);
    if r.len() > 0 {
        assert(r[0] == f[0]);
    }
}

/// Trimming twice is trimming once.
pub proof fn lemma_trim_idempotent(s: Seq<char>)
    ensures
        trim_white_space(trim_white_space(s)) == trim_white_space(s),
{
    let r = trim_white_space(s);
    lemma_trim_ends(s);
    assert(trim_front(r) == r);
    assert(trim_back(r) == r);
}

/// `trim_front` drops a run of white space from the start and nothing else.
pub proof fn lemma_trim_front_cut(s: Seq<char>) -> (i: int)
    ensures
        0 <= i <= s.len(),
        trim_front(s) == s.subrange(i, s.len() as int),
        forall|k: int| 0 <= k < i ==> is_white_space(s[k]),
    decreases s.len(),
{
    if s.len() > 0 && is_white_space(s[0]) {
        let i0 = lemma_trim_front_cut(s.drop_first());
        assert(s.drop_first().subrange(i0, s.len() - 1) =~= s.subrange(i0 + 1, s.len() as int));
        assert forall|k: int| 0 <= k < i0 + 1 implies is_white_space(s[k]) by {
            if k > 0 {
                assert(s[k] == s.drop_first()[k - 1]);
            }
        }
        i0 + 1
    } else {
        assert(s.subrange(0, s.len() as int) =~= s);
        0
    }
}

/// `trim_back` drops a run of white space from the end and nothing else.
pub proof fn lemma_trim_back_cut(s: Seq<char>)
    ensures
        forall|k: int| trim_back(s).len() <= k < s.len() ==> is_white_space(s[k]),
    decreases s.len(),
{
    lemma_trim_back_prefix(s);
    if s.len() > 0 && is_white_space(s.last()) {
        lemma_trim_back_cut(s.drop_last());
        assert forall|k: int| trim_back(s).len() <= k < s.len() implies is_white_space(s[k]) by {
            if k < s.len() - 1 {
                assert(s[k] == s.drop_last()[k]);
            }
        }
    }
}

/// Trimming keeps a contiguous piece of the text and removes only white space around it.
pub proof fn lemma_trim_removes_only_white_space(s: Seq<char>)
    ensures
        exists|i: int, j: int|
            0 <= i <= j <= s.len() && trim_white_space(s) == s.subrange(i, j) && (forall|k: int|
                0 <= k < i ==> is_white_space(#[trigger] s[k])) && (forall|k: int|
                j <= k < s.len() ==> is_white_space(#[trigger] s[k])),
{
    let i = lemma_trim_front_cut(s);
    let f = trim_front(s);
    lemma_trim_back_prefix(f);
    lemma_trim_back_cut(f);
    let j = i + trim_back(f).len();
    assert(trim_white_space(s) =~= s.subrange(i, j));
    assert forall|k: int| j <= k < s.len() implies is_white_space(#[trigger] s[k]) by {
        assert(s[k] == f[k - i]);
    }
}

/// Every well-formed UTF-8 byte sequence, of any length, reads as the
/// characters it encodes.
pub proof fn lemma_utf8_text_accepts_all_valid(bytes: Seq<u8>)
    requires
        valid_utf8(bytes),
    ensures
        utf8_text(bytes) == Some(decode_utf8(bytes)),
{
}

/// A byte sequence that is not well-formed UTF-8 reads as no text.
pub proof fn lemma_utf8_text_rejects_invalid(bytes: Seq<u8>)
    requires
        !valid_utf8(bytes),
    ensures
        utf8_text(bytes) is None,
{
}

/// Text read from bytes gives those very bytes back when encoded.
pub proof fn lemma_utf8_text_round_trip(bytes: Seq<u8>)
    requires
        utf8_text(bytes) is Some,
    ensures
        encode_utf8(utf8_text(bytes)->0) == bytes,
{
    decode_utf8_encode_utf8(bytes);
}

/// Removes leading and trailing white space.
pub fn trim(s: &str) -> (r: &str)
    ensures
        r@ == trim_white_space(s@),
{
    let n = s.unicode_len();
    let mut i: usize = 0;
    assert(s@.subrange(0, n as int) =~= s@);
    while i < n && char_is_whitespace(s.get_char(i))
        invariant
            n == s@.len(),
            i <= n,
            trim_front(s@) == trim_front(s@.subrange(i as int, n as int)),
        decreases n - i,
    {
        assert(s@.subrange(i as int, n as int).drop_first() =~= s@.subrange(i + 1, n as int));
        i = i + 1;
    }
    assert(trim_front(s@) == s@.subrange(i as int, n as int));
    let mut j: usize = n;
    while j > i && char_is_whitespace(s.get_char(j - 1))
        invariant
            n == s@.len(),
            i <= j <= n,
            trim_front(s@) == s@.subrange(i as int, n as int),
            trim_back(s@.subrange(i as int, n as int)) == trim_back(s@.subrange(i as int, j as int)),
        decreases j - i,
    {
        assert(s@.subrange(i as int, j as int).drop_last() =~= s@.subrange(i as int, j - 1));
        j = j - 1;
    }
    s.substring_char(i, j)
}

/// Decodes bytes as UTF-8 text, or gives `None` where they are not well formed.
pub fn decode_text(bytes: Vec<u8>) -> (r: Option<String>)
    ensures
        match r {
            Some(s) => utf8_text(bytes@) == Some(s@),
            None => utf8_text(bytes@) is None,
        },
        valid_utf8(bytes@) ==> r is Some && r->0@ == decode_utf8(bytes@),
        !valid_utf8(bytes@) ==> r is None,
{
    let ghost b = bytes@;
    let r = string_from_utf8(bytes);
    proof {
        if r is Some {
            encode_utf8_decode_utf8(r->0@);
        }
    }
    r
}

} // verus!
