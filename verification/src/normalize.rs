//! Course-id normalization.
//!
//! A course id is canonicalized before it is used as a key: surrounding
//! whitespace is trimmed, ASCII letters are upper-cased, and interior space
//! characters are removed. The same normalization runs at add time and at
//! remove time so that lookups always match.
//!
//! Normalization is deliberately ASCII-scoped: course ids are course codes,
//! and the mapping below is written out in full so that it is provably
//! idempotent and stable — it cannot drift with a Unicode version or a
//! locale, which matters for a value that becomes part of a persisted sort
//! key. A character outside the ASCII letters and the whitespace named here
//! passes through unchanged.

use vstd::prelude::*;

verus! {

/// Characters treated as trimmable whitespace at the ends of an id.
pub open spec fn is_trim_space(c: char) -> bool {
    c == ' ' || c == '\t' || c == '\n' || c == '\r'
}

/// Whether `c` is an ASCII lower-case letter.
pub open spec fn is_ascii_lower(c: char) -> bool {
    'a' as u32 <= c as u32 && c as u32 <= 'z' as u32
}

/// Upper-case an ASCII lower-case letter; every other character is unchanged.
pub open spec fn upper_char(c: char) -> char {
    if is_ascii_lower(c) {
        (((c as u32) - 32) as u8) as char
    } else {
        c
    }
}

/// Drop trimmable whitespace from the front of a sequence.
pub open spec fn trim_front(s: Seq<char>) -> Seq<char>
    decreases s.len(),
{
    if s.len() > 0 && is_trim_space(s.first()) {
        trim_front(s.drop_first())
    } else {
        s
    }
}

/// Drop trimmable whitespace from the back of a sequence.
pub open spec fn trim_back(s: Seq<char>) -> Seq<char>
    decreases s.len(),
{
    if s.len() > 0 && is_trim_space(s.last()) {
        trim_back(s.drop_last())
    } else {
        s
    }
}

/// Drop trimmable whitespace from both ends.
pub open spec fn trim_seq(s: Seq<char>) -> Seq<char> {
    trim_back(trim_front(s))
}

/// Upper-case every character and remove the space characters that remain.
pub open spec fn upper_strip(s: Seq<char>) -> Seq<char>
    decreases s.len(),
{
    if s.len() == 0 {
        Seq::empty()
    } else {
        let rest = upper_strip(s.drop_last());
        let u = upper_char(s.last());
        if u == ' ' {
            rest
        } else {
            rest.push(u)
        }
    }
}

/// The normalized form of a course id: trim both ends, upper-case, and
/// remove interior spaces.
pub open spec fn norm_id(s: Seq<char>) -> Seq<char> {
    upper_strip(trim_seq(s))
}

/// Relies on `core::iter::Iterator::collect` to gather the characters of a
/// vector into a `String` in order.
#[verifier::external_body]
fn chars_to_string(v: &Vec<char>) -> (r: String)
    ensures
        r@ == v@,
{
    v.iter().collect()
}

/// Normalize a course id: trim surrounding whitespace, upper-case ASCII
/// letters, and remove interior spaces.
pub fn normalize_course_id(s: &str) -> (r: String)
    ensures
        r@ == norm_id(s@),
{
    let n = s.unicode_len();

    // Scan past trimmable whitespace at the front.
    proof {
        assert(s@.skip(0) =~= s@);
    }
    let mut start: usize = 0;
    while start < n && is_trim_space_exec(s.get_char(start))
        invariant
            start <= n,
            n == s@.len(),
            trim_front(s@) == trim_front(s@.skip(start as int)),
        decreases n - start,
    {
        proof {
            assert(s@.skip(start as int).drop_first() =~= s@.skip(start as int + 1));
        }
        start = start + 1;
    }
    proof {
        if start < n {
            assert(trim_front(s@) =~= s@.skip(start as int));
        } else {
            assert(s@.skip(start as int) =~= Seq::<char>::empty());
            assert(trim_front(s@) =~= s@.skip(start as int));
        }
    }
    let ghost fronted = s@.skip(start as int);

    // Scan past trimmable whitespace at the back.
    proof {
        assert(fronted.take((n - start) as int) =~= fronted);
    }
    let mut end: usize = n;
    while end > start && is_trim_space_exec(s.get_char(end - 1))
        invariant
            start <= end <= n,
            n == s@.len(),
            fronted == s@.skip(start as int),
            trim_back(fronted) == trim_back(fronted.take(end - start)),
        decreases end,
    {
        proof {
            let k = end - start;
            assert(fronted.take(k).last() == s@[end - 1]);
            assert(fronted.take(k).drop_last() =~= fronted.take(k - 1));
        }
        end = end - 1;
    }
    proof {
        if end > start {
            assert(fronted.take(end - start).last() == s@[end - 1]);
            assert(trim_back(fronted.take(end - start)) == fronted.take(end - start));
        } else {
            assert(fronted.take(0) =~= Seq::<char>::empty());
        }
    }
    let ghost trimmed = fronted.take(end - start);
    proof {
        assert(trim_seq(s@) == trimmed);
    }

    // Upper-case and strip interior spaces.
    let mut out: Vec<char> = Vec::new();
    let mut i: usize = start;
    while i < end
        invariant
            start <= i <= end <= n,
            n == s@.len(),
            trimmed == s@.skip(start as int).take(end - start),
            out@ == upper_strip(trimmed.take(i - start)),
        decreases end - i,
    {
        let c = s.get_char(i);
        proof {
            let k = i - start;
            assert(trimmed.take(k + 1).drop_last() =~= trimmed.take(k));
            assert(trimmed.take(k + 1).last() == s@[i as int]);
        }
        let u = upper_char_exec(c);
        if u != ' ' {
            out.push(u);
        }
        i = i + 1;
    }
    proof {
        assert(trimmed.take(end - start) =~= trimmed);
    }
    chars_to_string(&out)
}

/// Executable counterpart of [`is_trim_space`].
pub fn is_trim_space_exec(c: char) -> (r: bool)
    ensures
        r == is_trim_space(c),
{
    c == ' ' || c == '\t' || c == '\n' || c == '\r'
}

/// Executable counterpart of [`upper_char`].
pub fn upper_char_exec(c: char) -> (r: char)
    ensures
        r == upper_char(c),
{
    let u = c as u32;
    if 97 <= u && u <= 122 {
        ((u - 32) as u8) as char
    } else {
        c
    }
}

/// Upper-casing moves a lower-case letter to the upper-case range and leaves
/// every other character alone; in particular it is idempotent and maps no
/// character onto whitespace.
proof fn lemma_upper_char_props(c: char)
    ensures
        upper_char(upper_char(c)) == upper_char(c),
        upper_char(c) == ' ' <==> c == ' ',
        is_trim_space(upper_char(c)) <==> is_trim_space(c),
{
    if is_ascii_lower(c) {
        assert(upper_char(c) as u32 == c as u32 - 32);
        assert(' ' as u32 == 32);
        assert('\t' as u32 == 9);
        assert('\n' as u32 == 10);
        assert('\r' as u32 == 13);
    }
}

/// Every character that `upper_strip` keeps is already upper-cased and is
/// not a space.
proof fn lemma_upper_strip_chars(s: Seq<char>)
    ensures
        forall|j: int|
            0 <= j < upper_strip(s).len() ==> upper_char(#[trigger] upper_strip(s)[j])
                == upper_strip(s)[j] && upper_strip(s)[j] != ' ',
    decreases s.len(),
{
    if s.len() > 0 {
        lemma_upper_strip_chars(s.drop_last());
        lemma_upper_char_props(s.last());
        let rest = upper_strip(s.drop_last());
        let u = upper_char(s.last());
        if u != ' ' {
            assert(upper_strip(s) == rest.push(u));
            assert forall|j: int| 0 <= j < upper_strip(s).len() implies upper_char(
                #[trigger] upper_strip(s)[j],
            ) == upper_strip(s)[j] && upper_strip(s)[j] != ' ' by {
                if j < rest.len() {
                    assert(upper_strip(s)[j] == rest[j]);
                } else {
                    assert(upper_strip(s)[j] == u);
                }
            }
        }
    }
}

/// On a sequence whose characters are all upper-cased non-spaces,
/// `upper_strip` is the identity.
proof fn lemma_upper_strip_identity(s: Seq<char>)
    requires
        forall|j: int| 0 <= j < s.len() ==> upper_char(#[trigger] s[j]) == s[j] && s[j] != ' ',
    ensures
        upper_strip(s) == s,
    decreases s.len(),
{
    if s.len() > 0 {
        lemma_upper_strip_identity(s.drop_last());
        assert(upper_strip(s) =~= s);
    } else {
        assert(upper_strip(s) =~= s);
    }
}

/// If the input starts with a non-space character, the stripped sequence
/// starts with its upper-cased image.
proof fn lemma_upper_strip_first(s: Seq<char>)
    requires
        s.len() > 0,
        s.first() != ' ',
    ensures
        upper_strip(s).len() > 0,
        upper_strip(s).first() == upper_char(s.first()),
    decreases s.len(),
{
    lemma_upper_char_props(s.first());
    lemma_upper_char_props(s.last());
    let rest = upper_strip(s.drop_last());
    let u = upper_char(s.last());
    if s.len() > 1 {
        assert(s.drop_last().first() == s.first());
        lemma_upper_strip_first(s.drop_last());
        if u != ' ' {
            assert(upper_strip(s) == rest.push(u));
            assert(upper_strip(s)[0] == rest[0]);
        } else {
            assert(upper_strip(s) == rest);
        }
    } else {
        assert(s.last() == s.first());
        assert(u != ' ');
        assert(upper_strip(s) == rest.push(u));
        assert(s.drop_last() =~= Seq::<char>::empty());
        assert(rest.len() == 0);
        assert(upper_strip(s)[0] == u);
    }
}

/// `trim_back` keeps a prefix of its input.
proof fn lemma_trim_back_prefix(s: Seq<char>)
    ensures
        trim_back(s).len() <= s.len(),
        forall|j: int| 0 <= j < trim_back(s).len() ==> #[trigger] trim_back(s)[j] == s[j],
    decreases s.len(),
{
    if s.len() > 0 && is_trim_space(s.last()) {
        lemma_trim_back_prefix(s.drop_last());
    }
}

/// Normalization is a fixed point: normalizing an already-normalized id
/// returns it unchanged.
pub proof fn lemma_norm_id_fixed_point(s: Seq<char>)
    ensures
        norm_id(norm_id(s)) == norm_id(s),
{
    let f = trim_front(s);
    let t = trim_seq(s);
    let n = norm_id(s);
    lemma_trim_front_result(s);
    lemma_trim_back_result(f);
    lemma_trim_back_prefix(f);
    if t.len() == 0 {
        assert(n =~= Seq::<char>::empty());
        assert(trim_front(n) == n);
        assert(trim_back(n) == n);
    } else {
        // The ends of the trimmed sequence are not trimmable whitespace,
        // so the stripped, upper-cased result keeps non-whitespace ends.
        assert(t.first() == f.first());
        assert(!is_trim_space(t.first()));
        assert(!is_trim_space(t.last()));
        assert(t.first() != ' ' && t.last() != ' ');
        lemma_upper_char_props(t.first());
        lemma_upper_char_props(t.last());
        lemma_upper_strip_first(t);
        assert(!is_trim_space(upper_char(t.first())));
        assert(!is_trim_space(n.first()));
        assert(trim_front(n) == n);
        assert(upper_strip(t) == upper_strip(t.drop_last()).push(upper_char(t.last())));
        assert(n.last() == upper_char(t.last()));
        assert(!is_trim_space(n.last()));
        assert(trim_back(n) == n);
    }
    lemma_upper_strip_chars(t);
    lemma_upper_strip_identity(n);
}

/// `trim_front` removes leading whitespace: its result is empty or starts
/// with a non-trimmable character.
proof fn lemma_trim_front_result(s: Seq<char>)
    ensures
        trim_front(s).len() == 0 || !is_trim_space(trim_front(s).first()),
    decreases s.len(),
{
    if s.len() > 0 && is_trim_space(s.first()) {
        lemma_trim_front_result(s.drop_first());
    }
}

/// `trim_back` removes trailing whitespace: its result is empty or ends
/// with a non-trimmable character.
proof fn lemma_trim_back_result(s: Seq<char>)
    ensures
        trim_back(s).len() == 0 || !is_trim_space(trim_back(s).last()),
    decreases s.len(),
{
    if s.len() > 0 && is_trim_space(s.last()) {
        lemma_trim_back_result(s.drop_last());
    }
}

} // verus!
