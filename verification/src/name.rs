//! File names as `base(n).ext`: taking a name apart into its base, its
//! duplicate number and its extension, and putting it together again.

use crate::decimal::{
    decimal, digit_value, is_numeral, lemma_decimal_injective, lemma_decimal_value,
    lemma_numeral_decimal, numeral_value,
};
use crate::decimal::{parse, push_decimal};
use crate::text::{from_chars, to_chars};
use vstd::prelude::*;
use vstd::string::StringExecFns;

verus! {

/// The last position of `c` in `s`, or -1 where `s` does not hold it.
pub open spec fn last_index_of(s: Seq<char>, c: char) -> int
    decreases s.len(),
{
    if s.len() == 0 {
        -1
    } else if s.last() == c {
        s.len() - 1
    } else {
        last_index_of(s.drop_last(), c)
    }
}

/// Where the extension of a file name begins, at its dot: at the last dot,
/// unless that dot is the name's first or last character.
pub open spec fn extension_start(name: Seq<char>) -> Option<int> {
    let i = last_index_of(name, '.');
    if 0 < i < name.len() - 1 {
        Some(i)
    } else {
        None
    }
}

/// The extension of a file name, with its dot.
pub open spec fn extension_of(name: Seq<char>) -> Option<Seq<char>> {
    match extension_start(name) {
        Some(i) => Some(name.skip(i)),
        None => None,
    }
}

/// A file name without its extension.
pub open spec fn stem_of(name: Seq<char>) -> Seq<char> {
    match extension_start(name) {
        Some(i) => name.take(i),
        None => name,
    }
}

/// Where the duplicate marker `(n)` at the end of `stem` begins, if `stem`
/// ends in one: `n` in decimal notation, and small enough for 64 bits.
pub open spec fn marker_start(stem: Seq<char>) -> Option<int> {
    let j = last_index_of(stem, '(');
    let digits = stem.subrange(j + 1, stem.len() - 1);
    if stem.len() >= 1 && stem.last() == ')' && j >= 0 && is_numeral(digits) && numeral_value(
        digits,
    ) <= u64::MAX {
        Some(j)
    } else {
        None
    }
}

/// The duplicate number of a file name: the `n` of a marker `(n)` that stands
/// at the end of the name's stem.
pub open spec fn number_of(name: Seq<char>) -> Option<u64> {
    let stem = stem_of(name);
    match marker_start(stem) {
        Some(j) => Some(numeral_value(stem.subrange(j + 1, stem.len() - 1)) as u64),
        None => None,
    }
}

/// The base of a file name: what is left of it without extension and
/// duplicate marker.
pub open spec fn base_of(name: Seq<char>) -> Seq<char> {
    let stem = stem_of(name);
    match marker_start(stem) {
        Some(j) => stem.take(j),
        None => stem,
    }
}

/// The duplicate marker for `n`.
pub open spec fn marker(n: u64) -> Seq<char> {
    seq!['('] + decimal(n as nat) + seq![')']
}

/// The file name made of a base, a duplicate number and an extension.
pub open spec fn assemble(
    base: Seq<char>,
    number: Option<u64>,
    extension: Option<Seq<char>>,
) -> Seq<char> {
    base + (match number {
        Some(n) => marker(n),
        None => Seq::<char>::empty(),
    }) + (match extension {
        Some(e) => e,
        None => Seq::<char>::empty(),
    })
}

/// The name that stands for the `n`-th duplicate of `name`.
pub open spec fn duplicate_name(name: Seq<char>, n: u64) -> Seq<char> {
    assemble(base_of(name), Some(n), extension_of(name))
}

/// What `last_index_of` finds is the last occurrence.
pub proof fn lemma_last_index_of(s: Seq<char>, c: char)
    ensures
        -1 <= last_index_of(s, c) < s.len(),
        last_index_of(s, c) >= 0 ==> s[last_index_of(s, c)] == c,
        forall|k: int| last_index_of(s, c) < k < s.len() ==> s[k] != c,
    decreases s.len(),
{
    if s.len() > 0 && s.last() != c {
        lemma_last_index_of(s.drop_last(), c);
        assert forall|k: int| last_index_of(s, c) < k < s.len() implies s[k] != c by {
            if k < s.len() - 1 {
                assert(s.drop_last()[k] == s[k]);
            }
        }
    }
}

/// A position that holds `c` with no `c` behind it is the last occurrence.
pub proof fn lemma_last_index_is(s: Seq<char>, c: char, j: int)
    requires
        -1 <= j < s.len(),
        j >= 0 ==> s[j] == c,
        forall|k: int| j < k < s.len() ==> s[k] != c,
    ensures
        last_index_of(s, c) == j,
{
    lemma_last_index_of(s, c);
}

/// A file name is its base, its duplicate marker and its extension, in that
/// order: putting together what a name was taken apart into gives the name.
pub proof fn law_reassemble(name: Seq<char>)
    ensures
        assemble(base_of(name), number_of(name), extension_of(name)) == name,
{
    let stem = stem_of(name);
    lemma_last_index_of(name, '.');
    lemma_last_index_of(stem, '(');
    match marker_start(stem) {
        Some(j) => {
            let digits = stem.subrange(j + 1, stem.len() - 1);
            lemma_numeral_decimal(digits);
            assert(stem =~= stem.take(j) + marker(number_of(name)->0));
        },
        None => {},
    }
    assert(assemble(base_of(name), number_of(name), extension_of(name)) =~= name);
}

/// The stem `base(n)` ends in the marker of `n`.
proof fn lemma_marker_found(base: Seq<char>, n: u64)
    ensures
        marker_start(base + marker(n)) == Some(base.len() as int),
        numeral_value(
            (base + marker(n)).subrange(base.len() as int + 1, (base + marker(n)).len() - 1),
        ) == n,
{
    let stem = base + marker(n);
    let d = decimal(n as nat);
    lemma_decimal_value(n as nat);
    assert forall|k: int| base.len() < k < stem.len() implies stem[k] != '(' by {
        if k < stem.len() - 1 {
            assert(stem[k] == d[k - base.len() - 1]);
            assert(digit_value(d[k - base.len() - 1]) is Some);
        }
    }
    lemma_last_index_is(stem, '(', base.len() as int);
    assert(stem.subrange(base.len() as int + 1, stem.len() - 1) =~= d);
}

/// A duplicate marker holds no dot.
proof fn lemma_marker_has_no_dot(n: u64)
    ensures
        forall|k: int| 0 <= k < marker(n).len() ==> marker(n)[k] != '.',
{
    let d = decimal(n as nat);
    lemma_decimal_value(n as nat);
    assert forall|k: int| 0 <= k < marker(n).len() implies marker(n)[k] != '.' by {
        if 0 < k < marker(n).len() - 1 {
            assert(marker(n)[k] == d[k - 1]);
            assert(digit_value(d[k - 1]) is Some);
        }
    }
}

/// The `n`-th duplicate of a name has the name's base and extension, and the
/// duplicate number `n`: renaming a renamed file counts on, and adds no
/// second marker. This holds of every name but those of two or more
/// characters that end in a dot.
pub proof fn law_duplicate_name_parts(name: Seq<char>, n: u64)
    requires
        !(name.len() >= 2 && name.last() == '.'),
    ensures
        base_of(duplicate_name(name, n)) == base_of(name),
        number_of(duplicate_name(name, n)) == Some(n),
        extension_of(duplicate_name(name, n)) == extension_of(name),
{
    let base = base_of(name);
    let m = marker(n);
    let new = duplicate_name(name, n);
    let stem = base + m;
    lemma_last_index_of(name, '.');
    lemma_marker_has_no_dot(n);
    lemma_marker_found(base, n);
    match extension_start(name) {
        Some(i) => {
            let e = name.skip(i);
            assert(new =~= stem + e);
            assert(new[stem.len() as int] == e[0]);
            assert forall|k: int| stem.len() < k < new.len() implies new[k] != '.' by {
                assert(new[k] == name[i + k - stem.len()]);
            }
            lemma_last_index_is(new, '.', stem.len() as int);
            assert(new.skip(stem.len() as int) =~= e);
            assert(new.take(stem.len() as int) =~= stem);
        },
        None => {
            assert(new =~= stem);
            let q = last_index_of(base, '.');
            lemma_last_index_of(base, '.');
            lemma_last_index_of(stem_of(name), '(');
            if q > 0 {
                assert(base[q] == name[q]);
            }
            assert forall|k: int| q < k < new.len() implies new[k] != '.' by {
                if k >= base.len() {
                    assert(new[k] == m[k - base.len()]);
                }
            }
            if q >= 0 {
                assert(new[q] == base[q]);
            }
            lemma_last_index_is(new, '.', q);
        },
    }
    assert(stem.take(base.len() as int) =~= base);
}

/// Names that differ only in their duplicate number are different names.
pub proof fn lemma_assembled_differ(
    base: Seq<char>,
    extension: Option<Seq<char>>,
    a: u64,
    b: u64,
)
    requires
        a != b,
    ensures
        assemble(base, Some(a), extension) != assemble(base, Some(b), extension),
{
    let x = assemble(base, Some(a), extension);
    let y = assemble(base, Some(b), extension);
    let tail = match extension {
        Some(e) => e,
        None => Seq::<char>::empty(),
    };
    if x == y {
        let da = decimal(a as nat);
        let db = decimal(b as nat);
        assert(x.len() == base.len() + da.len() + 2 + tail.len());
        assert(y.len() == base.len() + db.len() + 2 + tail.len());
        assert forall|k: int| 0 <= k < da.len() implies da[k] == db[k] by {
            assert(x[base.len() + 1 + k] == da[k]);
            assert(y[base.len() + 1 + k] == db[k]);
        }
        assert(da =~= db);
        lemma_decimal_injective(a as nat, b as nat);
    }
}

/// Different duplicate numbers give different names.
pub proof fn law_duplicate_names_differ(name: Seq<char>, a: u64, b: u64)
    requires
        a != b,
    ensures
        duplicate_name(name, a) != duplicate_name(name, b),
{
    lemma_assembled_differ(base_of(name), extension_of(name), a, b);
}

/// What an optional string holds.
pub open spec fn text_of(o: Option<String>) -> Option<Seq<char>> {
    match o {
        Some(s) => Some(s@),
        None => None,
    }
}

/// Where `c` last stands among the first `to` characters of `v`.
pub fn find_last(v: &Vec<char>, to: usize, c: char) -> (r: Option<usize>)
    requires
        to <= v.len(),
    ensures
        match r {
            Some(i) => i == last_index_of(v@.take(to as int), c),
            None => last_index_of(v@.take(to as int), c) == -1,
        },
{
    let ghost s = v@.take(to as int);
    let mut i: usize = to;
    while i > 0
        invariant
            i <= to <= v.len(),
            s == v@.take(to as int),
            forall|k: int| i <= k < to ==> s[k] != c,
        decreases i,
    {
        i -= 1;
        if v[i] == c {
            proof {
                lemma_last_index_is(s, c, i as int);
            }
            return Some(i);
        }
    }
    proof {
        lemma_last_index_is(s, c, -1);
    }
    None
}

/// Takes a file name apart into its base, its duplicate number and its
/// extension.
pub fn split_name(name: &str) -> (parts: (String, Option<u64>, Option<String>))
    ensures
        parts.0@ == base_of(name@),
        parts.1 == number_of(name@),
        text_of(parts.2) == extension_of(name@),
{
    let v = to_chars(name);
    let len = v.len();
    let mut stem_len = len;
    let mut extension: Option<String> = None;
    proof {
        assert(v@.take(len as int) =~= v@);
    }
    match find_last(&v, len, '.') {
        Some(i) => {
            if 0 < i && i < len - 1 {
                stem_len = i;
                extension = Some(from_chars(&v, i, len));
                assert(v@.skip(i as int) =~= v@.subrange(i as int, len as int));
            }
        },
        None => {},
    }
    let ghost stem = stem_of(name@);
    assert(stem =~= v@.take(stem_len as int));
    if stem_len >= 1 && v[stem_len - 1] == ')' {
        match find_last(&v, stem_len, '(') {
            Some(j) => {
                proof {
                    lemma_last_index_of(stem, '(');
                    assert(stem[j as int] == '(');
                    assert(stem.subrange(j + 1, stem.len() - 1) =~= v@.subrange(
                        j + 1,
                        stem_len - 1,
                    ));
                }
                match parse(&v, j + 1, stem_len - 1) {
                    Some(n) => {
                        assert(stem.take(j as int) =~= v@.subrange(0, j as int));
                        return (from_chars(&v, 0, j), Some(n), extension);
                    },
                    None => {},
                }
            },
            None => {},
        }
    }
    assert(stem =~= v@.subrange(0, stem_len as int));
    (from_chars(&v, 0, stem_len), None, extension)
}

/// Puts a file name together from its base, its duplicate number and its
/// extension.
pub fn join_name(base: &str, number: Option<u64>, extension: &Option<String>) -> (name: String)
    ensures
        name@ == assemble(base@, number, text_of(*extension)),
{
    let mut name = String::from_str(base);
    match number {
        Some(n) => {
            name.push('(');
            push_decimal(&mut name, n);
            name.push(')');
        },
        None => {},
    }
    match extension {
        Some(e) => {
            name.append(e.as_str());
        },
        None => {},
    }
    assert(name@ =~= assemble(base@, number, text_of(*extension)));
    name
}

/// The name of the `n`-th duplicate of the file called `name`.
pub fn duplicate(name: &str, n: u64) -> (renamed: String)
    ensures
        renamed@ == duplicate_name(name@, n),
{
    let (base, _, extension) = split_name(name);
    join_name(base.as_str(), Some(n), &extension)
}

} // verus!
