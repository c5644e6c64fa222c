use vstd::prelude::*;

verus! {

/// The characters of a string slice, in order.
pub fn chars_of(s: &str) -> (v: Vec<char>)
    ensures
        v@ == s@,
{
    broadcast use vstd::string::group_string_axioms;

    let mut v: Vec<char> = Vec::new();
    for c in it: s.chars()
        invariant
            v@ == it.seq().take(it.index() as int),
    {
        v.push(c);
    }
    v
}

/// The characters with the Unicode `White_Space` property, the set that
/// `char::is_whitespace` recognises.
pub open spec fn is_white_space(c: char) -> bool {
    let n = c as u32;
    ||| 0x9 <= n <= 0xd
    ||| n == 0x20
    ||| n == 0x85
    ||| n == 0xa0
    ||| n == 0x1680
    ||| 0x2000 <= n <= 0x200a
    ||| n == 0x2028
    ||| n == 0x2029
    ||| n == 0x202f
    ||| n == 0x205f
    ||| n == 0x3000
}

/// A text without its trailing white space (what `str::trim_end` keeps).
pub open spec fn trim_end(s: Seq<char>) -> Seq<char>
    decreases s.len(),
{
    if s.len() > 0 && is_white_space(s.last()) {
        trim_end(s.drop_last())
    } else {
        s
    }
}

/// Whether a character is white space.
pub fn is_white_space_char(c: char) -> (b: bool)
    ensures
        b == is_white_space(c),
{
    let n = c as u32;
    (0x9 <= n && n <= 0xd) || n == 0x20 || n == 0x85 || n == 0xa0 || n == 0x1680 || (0x2000
        <= n && n <= 0x200a) || n == 0x2028 || n == 0x2029 || n == 0x202f || n == 0x205f || n
        == 0x3000
}

/// The length of `text` once its trailing white space is removed.
pub fn trimmed_len(text: &Vec<char>) -> (n: usize)
    ensures
        n <= text@.len(),
        text@.subrange(0, n as int) == trim_end(text@),
{
    let mut n = text.len();
    assert(text@.subrange(0, n as int) =~= text@);
    while n > 0 && is_white_space_char(text[n - 1])
        invariant
            n <= text@.len(),
            trim_end(text@.subrange(0, n as int)) == trim_end(text@),
        decreases n,
    {
        assert(text@.subrange(0, n as int).drop_last() =~= text@.subrange(0, n - 1));
        n = n - 1;
    }
    n
}

/// Whether two texts are equal once the trailing white space of each is
/// removed.
pub fn same_up_to_trailing_white_space(produced: &str, expected: &str) -> (same: bool)
    ensures
        same == (trim_end(produced@) == trim_end(expected@)),
{
    let a = chars_of(produced);
    let b = chars_of(expected);
    let na = trimmed_len(&a);
    let nb = trimmed_len(&b);
    if na != nb {
        assert(trim_end(produced@).len() != trim_end(expected@).len());
        return false;
    }
    let mut i: usize = 0;
    while i < na
        invariant
            na == nb,
            na <= a@.len(),
            nb <= b@.len(),
            i <= na,
            a@.subrange(0, na as int) == trim_end(produced@),
            b@.subrange(0, nb as int) == trim_end(expected@),
            forall|j: int| 0 <= j < i ==> a@[j] == b@[j],
        decreases na - i,
    {
        if a[i] != b[i] {
            assert(trim_end(produced@)[i as int] != trim_end(expected@)[i as int]);
            return false;
        }
        i = i + 1;
    }
    assert(trim_end(produced@) =~= trim_end(expected@));
    true
}

/// Removing the trailing white space leaves a text that does not end in
/// white space and is a prefix of the original.
pub proof fn lemma_trim_end_shape(s: Seq<char>)
    ensures
        trim_end(s).len() <= s.len(),
        trim_end(s) == s.subrange(0, trim_end(s).len() as int),
        trim_end(s).len() > 0 ==> !is_white_space(trim_end(s).last()),
    decreases s.len(),
{
    if s.len() > 0 && is_white_space(s.last()) {
        lemma_trim_end_shape(s.drop_last());
        assert(s.drop_last().subrange(0, trim_end(s).len() as int) =~= s.subrange(
            0,
            trim_end(s).len() as int,
        ));
    } else {
        assert(s.subrange(0, s.len() as int) =~= s);
    }
}

/// What `trim_end` keeps, characterised: a prefix of the text, after which
/// only white space follows, and which does not itself end in white space.
pub proof fn lemma_trim_end_characterised(s: Seq<char>)
    ensures
        trim_end(s).len() <= s.len(),
        forall|j: int| 0 <= j < trim_end(s).len() ==> #[trigger] trim_end(s)[j] == s[j],
        forall|j: int| trim_end(s).len() <= j < s.len() ==> is_white_space(#[trigger] s[j]),
        trim_end(s).len() > 0 ==> !is_white_space(s[trim_end(s).len() - 1]),
    decreases s.len(),
{
    lemma_trim_end_shape(s);
    if s.len() > 0 && is_white_space(s.last()) {
        lemma_trim_end_characterised(s.drop_last());
        assert forall|j: int| trim_end(s).len() <= j < s.len() implies is_white_space(#[trigger] s[j]) by {
            if j < s.len() - 1 {
                assert(s[j] == s.drop_last()[j]);
            }
        }
    }
    assert forall|j: int| 0 <= j < trim_end(s).len() implies #[trigger] trim_end(s)[j] == s[j] by {
        assert(trim_end(s)[j] == s.subrange(0, trim_end(s).len() as int)[j]);
    }
}

/// Trailing white space does not matter: appending white space to a text
/// leaves what `trim_end` keeps unchanged.
pub proof fn lemma_trim_end_ignores_white_space_suffix(s: Seq<char>, ws: Seq<char>)
    requires
        forall|i: int| 0 <= i < ws.len() ==> is_white_space(#[trigger] ws[i]),
    ensures
        trim_end(s + ws) == trim_end(s),
    decreases ws.len(),
{
    if ws.len() > 0 {
        assert((s + ws).drop_last() =~= s + ws.drop_last());
        lemma_trim_end_ignores_white_space_suffix(s, ws.drop_last());
    } else {
        assert(s + ws =~= s);
    }
}

/// Trimming twice is trimming once.
pub proof fn lemma_trim_end_idempotent(s: Seq<char>)
    ensures
        trim_end(trim_end(s)) == trim_end(s),
{
    lemma_trim_end_shape(s);
}

} // verus!
