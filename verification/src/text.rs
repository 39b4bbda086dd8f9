//! Character- and byte-level helpers on which the rest of the library builds.
use vstd::prelude::*;

verus! {

/// `String::push`: appends one character.
#[verifier::external_body]
pub(crate) fn push_char(s: &mut String, c: char)
    ensures
        final(s)@ == old(s)@.push(c),
{
    s.push(c);
}

/// The characters of `s` with every `'-'` and `'+'` turned into `'_'`.
pub open spec fn underscore_separators(s: Seq<char>) -> Seq<char> {
    s.map_values(|c: char| if c == '-' || c == '+' { '_' } else { c })
}

/// Replaces every `'-'` and `'+'` of `s` with `'_'`.
pub fn replace_separators_with_underscore(s: &str) -> (r: String)
    ensures
        r@ == underscore_separators(s@),
{
    let mut r = String::new();
    for c in it: s.chars()
        invariant
            r@ == underscore_separators(it.seq().take(it.index() as int)),
    {
        proof {
            assert(it.seq().take(it.index() + 1) == it.seq().take(it.index() as int).push(c));
        }
        if c == '-' || c == '+' {
            push_char(&mut r, '_');
        } else {
            push_char(&mut r, c);
        }
    }
    r
}

} // verus!
verus! {

/// The characters of `s` without any `'-'` or `'+'`.
pub open spec fn without_separators(s: Seq<char>) -> Seq<char> {
    s.filter(|c: char| c != '-' && c != '+')
}

/// Drops every `'-'` and `'+'` from `s`.
pub fn remove_separators(s: &str) -> (r: String)
    ensures
        r@ == without_separators(s@),
{
    let mut r = String::new();
    for c in it: s.chars()
        invariant
            r@ == without_separators(it.seq().take(it.index() as int)),
    {
        proof {
            let pre = it.seq().take(it.index() as int);
            assert(it.seq().take(it.index() + 1) == pre.push(c));
            reveal_with_fuel(Seq::<_>::filter, 1);
            assert(pre.push(c).drop_last() == pre);
        }
        if c != '-' && c != '+' {
            push_char(&mut r, c);
        }
    }
    proof {
        assert(s@.take(s@.len() as int) == s@);
    }
    r
}

/// Whether two string slices hold the same characters.
pub fn same_text(a: &str, b: &str) -> (r: bool)
    ensures
        r == (a@ == b@),
{
    let a_owned = a.to_owned();
    let b_owned = b.to_owned();
    a_owned == b_owned
}

/// `prefix` followed by `s`, as a new string.
pub fn join_text(prefix: &str, s: &str) -> (r: String)
    ensures
        r@ == prefix@ + s@,
{
    let mut r = prefix.to_owned();
    r.append(s);
    r
}

/// Names the result of `str::to_uppercase`: the Unicode upper-case mapping of
/// a character sequence.
pub uninterp spec fn unicode_uppercase(s: Seq<char>) -> Seq<char>;

/// Names the result of `str::to_lowercase`: the Unicode lower-case mapping of
/// a character sequence.
pub uninterp spec fn unicode_lowercase(s: Seq<char>) -> Seq<char>;

/// Every character is ASCII.
pub open spec fn is_ascii_text(s: Seq<char>) -> bool {
    forall|i: int| 0 <= i < s.len() ==> (#[trigger] s[i] as u32) < 0x80
}

/// The ASCII upper case of a character: `a` to `z` become `A` to `Z`, every
/// other character stays.
pub open spec fn ascii_upper(c: char) -> char {
    if 'a' <= c <= 'z' {
        ((c as u32) - 32) as char
    } else {
        c
    }
}

/// The ASCII lower case of a character: `A` to `Z` become `a` to `z`, every
/// other character stays.
pub open spec fn ascii_lower(c: char) -> char {
    if 'A' <= c <= 'Z' {
        ((c as u32) + 32) as char
    } else {
        c
    }
}

/// `str::to_uppercase`: claims that the result is the function
/// `unicode_uppercase` of the argument's characters (same input, same
/// output), and that on ASCII text it maps each character by `ascii_upper`.
/// The mapping of other characters is not stated.
#[verifier::external_body]
pub(crate) fn to_uppercase(s: &str) -> (r: String)
    ensures
        r@ == unicode_uppercase(s@),
        is_ascii_text(s@) ==> r@ == s@.map_values(|c: char| ascii_upper(c)),
{
    s.to_uppercase()
}

/// `str::to_lowercase`: claims that the result is the function
/// `unicode_lowercase` of the argument's characters (same input, same
/// output), and that on ASCII text it maps each character by `ascii_lower`.
/// The mapping of other characters is not stated.
#[verifier::external_body]
pub(crate) fn to_lowercase(s: &str) -> (r: String)
    ensures
        r@ == unicode_lowercase(s@),
        is_ascii_text(s@) ==> r@ == s@.map_values(|c: char| ascii_lower(c)),
{
    s.to_lowercase()
}

} // verus!
verus! {

/// The character sequences held by a sequence of strings.
pub open spec fn texts(v: Seq<String>) -> Seq<Seq<char>> {
    v.map_values(|x: String| x@)
}

/// The fields of `s` between occurrences of `sep`, as `str::split` yields
/// them: always at least one field, possibly empty ones.
pub open spec fn split_fields(s: Seq<char>, sep: char) -> Seq<Seq<char>>
    decreases s.len(),
{
    if s.len() == 0 {
        seq![Seq::<char>::empty()]
    } else {
        let prev = split_fields(s.drop_last(), sep);
        if s.last() == sep {
            prev.push(Seq::<char>::empty())
        } else {
            prev.update(prev.len() - 1, prev.last().push(s.last()))
        }
    }
}

/// The non-empty fields of `s` between occurrences of `sep`, in order.
pub open spec fn nonempty_fields(s: Seq<char>, sep: char) -> Seq<Seq<char>> {
    split_fields(s, sep).filter(|f: Seq<char>| f.len() > 0)
}

proof fn lemma_split_fields_nonempty(s: Seq<char>, sep: char)
    ensures
        split_fields(s, sep).len() >= 1,
    decreases s.len(),
{
    if s.len() > 0 {
        lemma_split_fields_nonempty(s.drop_last(), sep);
    }
}

/// Splits `s` at every `sep` and keeps the non-empty pieces, in order.
pub fn split_nonempty(s: &str, sep: char) -> (r: Vec<String>)
    ensures
        texts(r@) == nonempty_fields(s@, sep),
{
    let mut done: Vec<String> = Vec::new();
    let mut cur = String::new();
    for c in it: s.chars()
        invariant
            split_fields(it.seq().take(it.index() as int), sep).len() >= 1,
            cur@ == split_fields(it.seq().take(it.index() as int), sep).last(),
            texts(done@) == split_fields(it.seq().take(it.index() as int), sep).drop_last().filter(
                |f: Seq<char>| f.len() > 0,
            ),
    {
        let ghost pre = it.seq().take(it.index() as int);
        let ghost fields = split_fields(pre, sep);
        proof {
            let next = it.seq().take(it.index() + 1);
            assert(next == pre.push(c));
            assert(next.drop_last() == pre);
            lemma_split_fields_nonempty(next, sep);
            reveal_with_fuel(Seq::<_>::filter, 1);
            assert(fields == fields.drop_last().push(fields.last()));
        }
        if c == sep {
            if !cur.as_str().is_empty() {
                done.push(cur);
            }
            cur = String::new();
            proof {
                let next = it.seq().take(it.index() + 1);
                let nf = split_fields(next, sep);
                assert(nf.drop_last() == fields);
                assert(texts(done@) == fields.filter(|f: Seq<char>| f.len() > 0));
            }
        } else {
            push_char(&mut cur, c);
            proof {
                let next = it.seq().take(it.index() + 1);
                let nf = split_fields(next, sep);
                assert(nf.drop_last() == fields.drop_last());
            }
        }
    }
    let ghost all = split_fields(s@, sep);
    proof {
        assert(s@.take(s@.len() as int) == s@);
        reveal_with_fuel(Seq::<_>::filter, 1);
        assert(all == all.drop_last().push(all.last()));
    }
    if !cur.as_str().is_empty() {
        done.push(cur);
    }
    done
}

} // verus!
verus! {

/// `s` ends with `suffix`.
pub open spec fn ends_with(s: Seq<char>, suffix: Seq<char>) -> bool {
    suffix.len() <= s.len() && s.subrange(s.len() - suffix.len(), s.len() as int) == suffix
}

/// `s` without the trailing `suffix`, if it ends with it (`str::strip_suffix`).
pub fn strip_suffix(s: &str, suffix: &str) -> (r: Option<String>)
    ensures
        r matches Some(t) ==> ends_with(s@, suffix@) && t@ == s@.take(s@.len() - suffix@.len()),
        r is None ==> !ends_with(s@, suffix@),
{
    let n = s.unicode_len();
    let m = suffix.unicode_len();
    if m <= n {
        let tail = s.substring_char(n - m, n);
        if same_text(tail, suffix) {
            let head = s.substring_char(0, n - m);
            return Some(head.to_owned());
        }
    }
    None
}

/// The bytes of `needle` occur contiguously in `haystack`.
pub open spec fn contains_bytes(haystack: Seq<u8>, needle: Seq<u8>) -> bool {
    exists|i: int|
        0 <= i && i + needle.len() <= haystack.len() && #[trigger] haystack.subrange(
            i,
            i + needle.len(),
        ) == needle
}

/// Whether `needle` occurs in `haystack` as a contiguous run of bytes.
pub fn find_bytes(haystack: &[u8], needle: &[u8]) -> (r: bool)
    ensures
        r == contains_bytes(haystack@, needle@),
{
    let n = haystack.len();
    let m = needle.len();
    if m > n {
        proof {
            assert forall|i: int|
                0 <= i && i + needle@.len() <= haystack@.len() implies #[trigger] haystack@.subrange(
                i,
                i + needle@.len(),
            ) != needle@ by {}
        }
        return false;
    }
    let mut i: usize = 0;
    while i <= n - m
        invariant
            n == haystack@.len(),
            m == needle@.len(),
            m <= n,
            i <= n - m + 1,
            forall|k: int| 0 <= k < i ==> #[trigger] haystack@.subrange(k, k + m) != needle@,
        decreases n - i,
    {
        let mut j: usize = 0;
        let mut same = true;
        while j < m
            invariant
                n == haystack@.len(),
                m == needle@.len(),
                i + m <= n,
                j <= m,
                same == (forall|t: int| 0 <= t < j ==> haystack@[i + t] == needle@[t]),
            decreases m - j,
        {
            if haystack[i + j] != needle[j] {
                same = false;
            }
            j = j + 1;
        }
        if same {
            proof {
                assert(haystack@.subrange(i as int, i + m) =~= needle@);
            }
            return true;
        }
        proof {
            assert(exists|t: int| 0 <= t < m && haystack@[i + t] != needle@[t]);
            let t = choose|t: int| 0 <= t < m && haystack@[i + t] != needle@[t];
            assert(haystack@.subrange(i as int, i + m)[t] != needle@[t]);
        }
        i = i + 1;
    }
    false
}

/// Whether two byte vectors hold the same bytes.
pub fn same_bytes(a: &Vec<u8>, b: &Vec<u8>) -> (r: bool)
    ensures
        r == (a@ == b@),
{
    if a.len() != b.len() {
        return false;
    }
    let mut i: usize = 0;
    while i < a.len()
        invariant
            a@.len() == b@.len(),
            i <= a@.len(),
            forall|k: int| 0 <= k < i ==> a@[k] == b@[k],
        decreases a@.len() - i,
    {
        if a[i] != b[i] {
            return false;
        }
        i = i + 1;
    }
    proof {
        assert(a@ =~= b@);
    }
    true
}

/// Every entry kept by a filter is an entry of the filtered sequence.
pub(crate) proof fn lemma_filter_member<A>(s: Seq<A>, pred: spec_fn(A) -> bool, i: int)
    requires
        0 <= i < s.filter(pred).len(),
    ensures
        s.contains(s.filter(pred)[i]),
    decreases s.len(),
{
    reveal_with_fuel(Seq::<_>::filter, 1);
    if s.len() > 0 {
        let sub = s.drop_last().filter(pred);
        if i < sub.len() {
            lemma_filter_member(s.drop_last(), pred, i);
            let j = choose|j: int| 0 <= j < s.drop_last().len() && s.drop_last()[j] == sub[i];
            assert(s[j] == s.filter(pred)[i]);
        } else {
            assert(s[s.len() - 1] == s.filter(pred)[i]);
        }
    }
}

proof fn lemma_fields_free_of_separator(s: Seq<char>, sep: char)
    ensures
        forall|i: int|
            0 <= i < split_fields(s, sep).len() ==> !(#[trigger] split_fields(s, sep)[i]).contains(sep),
    decreases s.len(),
{
    if s.len() > 0 {
        lemma_fields_free_of_separator(s.drop_last(), sep);
        lemma_split_fields_nonempty(s.drop_last(), sep);
        let prev = split_fields(s.drop_last(), sep);
        if s.last() != sep {
            let grown = prev.last().push(s.last());
            assert(!prev.last().contains(sep));
            assert(!grown.contains(sep)) by {
                if grown.contains(sep) {
                    let k = choose|k: int| 0 <= k < grown.len() && grown[k] == sep;
                    assert(prev.last()[k] == sep);
                }
            }
        }
    }
}

/// Every field that `nonempty_fields` keeps is non-empty and holds no
/// separator.
pub proof fn law_nonempty_fields(s: Seq<char>, sep: char)
    ensures
        forall|i: int|
            0 <= i < nonempty_fields(s, sep).len() ==> (#[trigger] nonempty_fields(s, sep)[i]).len() > 0
                && !nonempty_fields(s, sep)[i].contains(sep),
{
    broadcast use vstd::seq_lib::group_filter_ensures;

    lemma_fields_free_of_separator(s, sep);
    let fields = split_fields(s, sep);
    let pred = |f: Seq<char>| f.len() > 0;
    assert forall|i: int| 0 <= i < nonempty_fields(s, sep).len() implies (#[trigger] nonempty_fields(
        s,
        sep,
    )[i]).len() > 0 && !nonempty_fields(s, sep)[i].contains(sep) by {
        lemma_filter_member(fields, pred, i);
        let j = choose|j: int| 0 <= j < fields.len() && fields[j] == fields.filter(pred)[i];
        assert(!fields[j].contains(sep));
        assert(pred(fields.filter(pred)[i]));
    }
}

/// After separators are replaced, none is left.
pub proof fn law_no_separators_left(s: Seq<char>)
    ensures
        !underscore_separators(s).contains('-') && !underscore_separators(s).contains('+'),
        underscore_separators(s).len() == s.len(),
        !without_separators(s).contains('-') && !without_separators(s).contains('+'),
{
    broadcast use vstd::seq_lib::group_filter_ensures;

    let pred = |c: char| c != '-' && c != '+';
    assert forall|i: int| 0 <= i < without_separators(s).len() implies #[trigger] without_separators(
        s,
    )[i] != '-' && without_separators(s)[i] != '+' by {
        assert(pred(s.filter(pred)[i]));
    }
}

} // verus!
verus! {

/// A sequence with no `sep` in it is one field.
proof fn lemma_split_single_field(s: Seq<char>, sep: char)
    requires
        !s.contains(sep),
    ensures
        split_fields(s, sep) == seq![s],
    decreases s.len(),
{
    if s.len() == 0 {
        assert(s =~= Seq::<char>::empty());
    } else {
        assert(!s.drop_last().contains(sep)) by {
            if s.drop_last().contains(sep) {
                let k = choose|k: int| 0 <= k < s.drop_last().len() && s.drop_last()[k] == sep;
                assert(s[k] == sep);
            }
        }
        lemma_split_single_field(s.drop_last(), sep);
        assert(s[s.len() - 1] != sep);
        assert(s.drop_last().push(s.last()) =~= s);
        assert(split_fields(s, sep) =~= seq![s]);
    }
}

/// Splitting at a separator between `a` and `b` gives the fields of `a`
/// followed by those of `b`.
proof fn lemma_split_fields_join(a: Seq<char>, b: Seq<char>, sep: char)
    ensures
        split_fields(a + seq![sep] + b, sep) == split_fields(a, sep) + split_fields(b, sep),
    decreases b.len(),
{
    let s = a + seq![sep] + b;
    lemma_split_fields_nonempty(a, sep);
    if b.len() == 0 {
        assert(s =~= a.push(sep));
        assert(s.drop_last() =~= a);
        assert(split_fields(s, sep) =~= split_fields(a, sep) + split_fields(b, sep));
    } else {
        let b0 = b.drop_last();
        let c = b.last();
        lemma_split_fields_join(a, b0, sep);
        lemma_split_fields_nonempty(b0, sep);
        assert(s.drop_last() =~= a + seq![sep] + b0);
        let fa = split_fields(a, sep);
        let fb0 = split_fields(b0, sep);
        if c == sep {
            assert(split_fields(s, sep) =~= fa + fb0.push(Seq::<char>::empty()));
        } else {
            let prev = fa + fb0;
            assert(prev.last() == fb0.last());
            assert(prev.update(prev.len() - 1, prev.last().push(c)) =~= fa + fb0.update(
                fb0.len() - 1,
                fb0.last().push(c),
            ));
        }
        assert(split_fields(s, sep) =~= fa + split_fields(b, sep));
    }
}

/// The non-empty fields of a separator-joined text are those of its two
/// parts, in order; a non-empty text without the separator is exactly one
/// field, and an empty text has none.
pub proof fn law_nonempty_fields_join(a: Seq<char>, b: Seq<char>, sep: char)
    ensures
        nonempty_fields(a + seq![sep] + b, sep) == nonempty_fields(a, sep) + nonempty_fields(b, sep),
        a.len() > 0 && !a.contains(sep) ==> nonempty_fields(a, sep) == seq![a],
        nonempty_fields(Seq::<char>::empty(), sep).len() == 0,
{
    let pred = |f: Seq<char>| f.len() > 0;
    lemma_split_fields_join(a, b, sep);
    Seq::filter_distributes_over_add(split_fields(a, sep), split_fields(b, sep), pred);
    reveal_with_fuel(Seq::<_>::filter, 2);
    if a.len() > 0 && !a.contains(sep) {
        lemma_split_single_field(a, sep);
        assert(seq![a].drop_last() =~= Seq::<Seq<char>>::empty());
        assert(nonempty_fields(a, sep) =~= seq![a]);
    }
    let e = Seq::<char>::empty();
    assert(split_fields(e, sep) == seq![e]);
    assert(seq![e].drop_last() =~= Seq::<Seq<char>>::empty());
}

} // verus!
