//! Character-level operations on strings, stated over `Seq<char>`.

use vstd::prelude::*;

verus! {

/// How many characters from position `from` on are neither `a` nor `b`,
/// counted up to the first that is one of them or to the end.
pub open spec fn run_length(s: Seq<char>, a: char, b: char, from: int) -> nat
    decreases s.len() - from,
{
    if from < 0 || from >= s.len() || s[from] == a || s[from] == b {
        0
    } else {
        1 + run_length(s, a, b, from + 1)
    }
}

/// The position of the first `a` or `b` at or after `from`; the length of
/// `s` when there is none.
pub open spec fn first_of(s: Seq<char>, a: char, b: char, from: int) -> int {
    from + run_length(s, a, b, from)
}

/// `first_of` stays inside the text, stops on a delimiter, and passes over
/// none.
pub proof fn lemma_first_of(s: Seq<char>, a: char, b: char, from: int)
    requires
        0 <= from <= s.len(),
    ensures
        from <= first_of(s, a, b, from) <= s.len(),
        first_of(s, a, b, from) < s.len() ==> s[first_of(s, a, b, from)] == a || s[first_of(
            s,
            a,
            b,
            from,
        )] == b,
        forall|k: int| from <= k < first_of(s, a, b, from) ==> s[k] != a && s[k] != b,
    decreases s.len() - from,
{
    if from < s.len() && s[from] != a && s[from] != b {
        lemma_first_of(s, a, b, from + 1);
    }
}

/// The pieces of `s` from position `from` on, cut at each `sep`.
pub open spec fn split_from(s: Seq<char>, sep: char, from: int) -> Seq<Seq<char>>
    decreases s.len() - from,
{
    if from < 0 || from > s.len() {
        Seq::empty()
    } else {
        let cut = first_of(s, sep, sep, from);
        if cut >= s.len() {
            seq![s.subrange(from, s.len() as int)]
        } else {
            seq![s.subrange(from, cut)] + split_from(s, sep, cut + 1)
        }
    }
}

/// The pieces between the occurrences of `sep` in `s`: always at least one
/// piece, and one more than there are separators.
pub open spec fn split(s: Seq<char>, sep: char) -> Seq<Seq<char>> {
    split_from(s, sep, 0)
}

/// Where `pattern` first occurs in `s` at or after `from`.
pub open spec fn find_from(s: Seq<char>, pattern: Seq<char>, from: int) -> Option<int>
    decreases s.len() - from,
{
    if from < 0 || from + pattern.len() > s.len() {
        None
    } else if from >= s.len() || s.subrange(from, from + pattern.len()) == pattern {
        Some(from)
    } else {
        find_from(s, pattern, from + 1)
    }
}

/// Where `find_from` finds the pattern, it stands, at or after `from`.
pub proof fn lemma_find_from(s: Seq<char>, pattern: Seq<char>, from: int)
    requires
        0 <= from,
    ensures
        find_from(s, pattern, from) is Some ==> {
            let at = find_from(s, pattern, from)->0;
            &&& from <= at
            &&& at + pattern.len() <= s.len()
            &&& s.subrange(at, at + pattern.len()) =~= pattern
        },
    decreases s.len() - from,
{
    if from + pattern.len() > s.len() {
    } else if from >= s.len() || s.subrange(from, from + pattern.len()) == pattern {
    } else {
        lemma_find_from(s, pattern, from + 1);
    }
}

/// Whether `s` begins with `prefix`.
pub open spec fn has_prefix(s: Seq<char>, prefix: Seq<char>) -> bool {
    prefix.len() <= s.len() && s.subrange(0, prefix.len() as int) == prefix
}

/// `s` with every `c` replaced by the text `with`.
pub open spec fn replaced(s: Seq<char>, c: char, with: Seq<char>) -> Seq<char>
    decreases s.len(),
{
    if s.len() == 0 {
        s
    } else {
        replaced(s.drop_last(), c, with) + (if s.last() == c {
            with
        } else {
            seq![s.last()]
        })
    }
}

/// The texts of `parts` with `sep` between each two neighbours.
pub open spec fn joined(parts: Seq<Seq<char>>, sep: Seq<char>) -> Seq<char>
    decreases parts.len(),
{
    if parts.len() == 0 {
        Seq::empty()
    } else if parts.len() == 1 {
        parts[0]
    } else {
        joined(parts.drop_last(), sep) + sep + parts.last()
    }
}

/// Whether `a` comes strictly before `b` when compared character by
/// character from position `from` on, a proper prefix coming first.
pub open spec fn precedes_from(a: Seq<char>, b: Seq<char>, from: int) -> bool
    decreases b.len() - from,
{
    if from < 0 || from >= b.len() {
        false
    } else if from >= a.len() {
        true
    } else if a[from] != b[from] {
        a[from] < b[from]
    } else {
        precedes_from(a, b, from + 1)
    }
}

/// Lexicographic order by code point: `a` sorts strictly before `b`.
pub open spec fn precedes(a: Seq<char>, b: Seq<char>) -> bool {
    precedes_from(a, b, 0)
}

/// The views of a list of strings.
pub open spec fn texts(list: Seq<String>) -> Seq<Seq<char>> {
    Seq::new(list.len(), |i: int| list[i]@)
}

/// The text of an optional string.
pub open spec fn opt_text(s: Option<String>) -> Option<Seq<char>> {
    match s {
        Some(s) => Some(s@),
        None => None,
    }
}

/// The texts of an optional list of strings.
pub open spec fn opt_texts(list: Option<Vec<String>>) -> Option<Seq<Seq<char>>> {
    match list {
        Some(list) => Some(texts(list@)),
        None => None,
    }
}

/// The characters of `s`, one by one.
pub fn chars_of(s: &str) -> (out: Vec<char>)
    ensures
        out@ == s@,
{
    let mut out: Vec<char> = Vec::new();
    for c in it: s.chars()
        invariant
            it.seq() == s@,
            out@.len() == it.index(),
            forall|j: int| 0 <= j < out@.len() ==> out@[j] == it.seq()[j],
    {
        out.push(c);
    }
    assert(out@ =~= s@);
    out
}

/// The position of the first `a` or `b` at or after `from`, or the length.
pub fn find_either(chars: &Vec<char>, a: char, b: char, from: usize) -> (at: usize)
    requires
        from <= chars@.len(),
    ensures
        at == first_of(chars@, a, b, from as int),
        from <= at <= chars@.len(),
        at < chars@.len() ==> chars@[at as int] == a || chars@[at as int] == b,
        forall|k: int| from <= k < at ==> chars@[k] != a && chars@[k] != b,
{
    let mut at: usize = from;
    proof {
        lemma_first_of(chars@, a, b, from as int);
    }
    while at < chars.len() && chars[at] != a && chars[at] != b
        invariant
            from <= at <= chars@.len(),
            first_of(chars@, a, b, from as int) == first_of(chars@, a, b, at as int),
        decreases chars@.len() - at,
    {
        at += 1;
    }
    proof {
        lemma_first_of(chars@, a, b, at as int);
    }
    at
}

/// Cuts `s` at every `sep`.
pub fn split_on(s: &str, sep: char) -> (parts: Vec<String>)
    ensures
        texts(parts@) == split(s@, sep),
        parts@.len() >= 1,
{
    let chars = chars_of(s);
    let mut parts: Vec<String> = Vec::new();
    let mut from: usize = 0;
    loop
        invariant
            chars@ == s@,
            from <= chars@.len(),
            split(s@, sep) == texts(parts@) + split_from(s@, sep, from as int),
        decreases chars@.len() - from,
    {
        let cut = find_either(&chars, sep, sep, from);
        let piece = s.substring_char(from, cut).to_owned();
        let ghost before = parts@;
        parts.push(piece);
        assert(texts(parts@) =~= texts(before) + seq![s@.subrange(from as int, cut as int)]);
        if cut >= chars.len() {
            assert(texts(parts@) =~= split(s@, sep));
            return parts;
        }
        assert(texts(parts@) + split_from(s@, sep, cut + 1) =~= split(s@, sep));
        from = cut + 1;
    }
}

/// Where `pattern` first occurs at or after `from`.
pub fn find_pattern(chars: &Vec<char>, pattern: &Vec<char>, from: usize) -> (found: Option<usize>)
    requires
        from <= chars@.len(),
    ensures
        found is Some == find_from(chars@, pattern@, from as int) is Some,
        found is Some ==> found->0 == find_from(chars@, pattern@, from as int)->0,
        found is Some ==> from <= found->0 && found->0 + pattern@.len() <= chars@.len()
            && chars@.subrange(found->0 as int, found->0 + pattern@.len()) == pattern@,
{
    let mut at: usize = from;
    while pattern.len() <= chars.len() - at
        invariant
            from <= at <= chars@.len(),
            find_from(chars@, pattern@, from as int) == find_from(chars@, pattern@, at as int),
        decreases chars@.len() - at,
    {
        let mut k: usize = 0;
        while k < pattern.len() && chars[at + k] == pattern[k]
            invariant
                at + pattern@.len() <= chars@.len() <= usize::MAX,
                k <= pattern@.len(),
                forall|j: int| 0 <= j < k ==> chars@[at + j] == pattern@[j],
            decreases pattern@.len() - k,
        {
            k += 1;
        }
        if k == pattern.len() {
            assert(chars@.subrange(at as int, at + pattern@.len()) =~= pattern@);
            return Some(at);
        }
        assert(chars@.subrange(at as int, at + pattern@.len())[k as int] != pattern@[k as int]);
        at += 1;
    }
    None
}

/// Whether `chars` begins with `prefix`.
pub fn starts_with(chars: &Vec<char>, prefix: &Vec<char>) -> (yes: bool)
    ensures
        yes == has_prefix(chars@, prefix@),
{
    if prefix.len() > chars.len() {
        return false;
    }
    let mut k: usize = 0;
    while k < prefix.len() && chars[k] == prefix[k]
        invariant
            prefix@.len() <= chars@.len(),
            k <= prefix@.len(),
            forall|j: int| 0 <= j < k ==> chars@[j] == prefix@[j],
        decreases prefix@.len() - k,
    {
        k += 1;
    }
    if k == prefix.len() {
        assert(chars@.subrange(0, prefix@.len() as int) =~= prefix@);
        true
    } else {
        assert(chars@.subrange(0, prefix@.len() as int)[k as int] != prefix@[k as int]);
        false
    }
}

/// Replacing in a text that is extended by a stretch without `c` extends the
/// result by that stretch.
pub proof fn lemma_replaced_run(s: Seq<char>, c: char, with: Seq<char>, from: int, to: int)
    requires
        0 <= from <= to <= s.len(),
        forall|k: int| from <= k < to ==> s[k] != c,
    ensures
        replaced(s.take(to), c, with) == replaced(s.take(from), c, with) + s.subrange(from, to),
    decreases to - from,
{
    if from == to {
        assert(replaced(s.take(from), c, with) + s.subrange(from, to) =~= replaced(
            s.take(from),
            c,
            with,
        ));
    } else {
        lemma_replaced_run(s, c, with, from, to - 1);
        assert(s.take(to).drop_last() =~= s.take(to - 1));
        assert(s.subrange(from, to - 1) + seq![s[to - 1]] =~= s.subrange(from, to));
        assert(replaced(s.take(to), c, with) =~= replaced(s.take(from), c, with) + s.subrange(
            from,
            to,
        ));
    }
}

/// `s` with every `c` replaced by `with`.
pub fn replace_char(s: &str, c: char, with: &str) -> (out: String)
    ensures
        out@ == replaced(s@, c, with@),
{
    let chars = chars_of(s);
    let mut out = String::new();
    let mut from: usize = 0;
    assert(s@.take(0) =~= Seq::<char>::empty());
    loop
        invariant
            chars@ == s@,
            from <= chars@.len(),
            out@ == replaced(s@.take(from as int), c, with@),
        decreases chars@.len() - from,
    {
        let cut = find_either(&chars, c, c, from);
        proof {
            lemma_replaced_run(s@, c, with@, from as int, cut as int);
        }
        out.append(s.substring_char(from, cut));
        if cut >= chars.len() {
            assert(s@.take(cut as int) =~= s@);
            return out;
        }
        out.append(with);
        proof {
            assert(s@.take(cut + 1).drop_last() =~= s@.take(cut as int));
        }
        from = cut + 1;
    }
}

/// The texts of `parts` with `sep` between them.
pub fn join(parts: &Vec<String>, sep: &str) -> (out: String)
    ensures
        out@ == joined(texts(parts@), sep@),
{
    let mut out = String::new();
    let mut i: usize = 0;
    assert(texts(parts@).take(0) =~= Seq::<Seq<char>>::empty());
    while i < parts.len()
        invariant
            i <= parts@.len(),
            out@ == joined(texts(parts@).take(i as int), sep@),
        decreases parts@.len() - i,
    {
        if i > 0 {
            out.append(sep);
        }
        out.append(parts[i].as_str());
        proof {
            let upto = texts(parts@).take(i + 1);
            assert(upto.drop_last() =~= texts(parts@).take(i as int));
            assert(upto.last() == parts@[i as int]@);
            if i == 0 {
                assert(out@ =~= parts@[0]@);
            }
        }
        i += 1;
    }
    assert(texts(parts@).take(i as int) =~= texts(parts@));
    out
}

/// Whether `a` has the smaller code point.
pub fn char_less(a: char, b: char) -> (less: bool)
    ensures
        less == (a < b),
{
    (a as u32) < (b as u32)
}

/// Whether `a` sorts strictly before `b`.
pub fn comes_before(a: &Vec<char>, b: &Vec<char>) -> (yes: bool)
    ensures
        yes == precedes(a@, b@),
{
    let mut i: usize = 0;
    while i < a.len() && i < b.len() && a[i] == b[i]
        invariant
            i <= a@.len(),
            i <= b@.len(),
            precedes(a@, b@) == precedes_from(a@, b@, i as int),
        decreases b@.len() - i,
    {
        i += 1;
    }
    if i >= b.len() {
        false
    } else if i >= a.len() {
        true
    } else {
        char_less(a[i], b[i])
    }
}

/// The texts of `a`, `b` and `c`, one after the other.
pub fn concat3(a: &str, b: &str, c: &str) -> (out: String)
    ensures
        out@ == a@ + b@ + c@,
{
    let mut out = a.to_owned();
    out.append(b);
    out.append(c);
    out
}

/// A copy of a list of strings.
pub fn copy_strings(list: &Vec<String>) -> (out: Vec<String>)
    ensures
        texts(out@) == texts(list@),
        out@.len() == list@.len(),
{
    let mut out: Vec<String> = Vec::new();
    let mut i: usize = 0;
    while i < list.len()
        invariant
            i <= list@.len(),
            out@.len() == i,
            forall|j: int| 0 <= j < i ==> out@[j]@ == list@[j]@,
        decreases list@.len() - i,
    {
        out.push(list[i].clone());
        i += 1;
    }
    assert(texts(out@) =~= texts(list@));
    out
}

/// A copy of an optional string.
pub fn copy_opt_string(s: &Option<String>) -> (out: Option<String>)
    ensures
        opt_text(out) == opt_text(*s),
{
    match s {
        Some(s) => Some(s.clone()),
        None => None,
    }
}

/// A copy of an optional list of strings.
pub fn copy_opt_strings(list: &Option<Vec<String>>) -> (out: Option<Vec<String>>)
    ensures
        opt_texts(out) == opt_texts(*list),
{
    match list {
        Some(list) => Some(copy_strings(list)),
        None => None,
    }
}

/// Of two different characters one has the smaller code point.
pub proof fn lemma_chars_ordered(a: char, b: char)
    requires
        a != b,
    ensures
        a < b || b < a,
{
}

/// Of two different texts one comes before the other.
pub proof fn lemma_precedes_total(a: Seq<char>, b: Seq<char>, from: int)
    requires
        0 <= from <= a.len(),
        from <= b.len(),
        forall|k: int| 0 <= k < from ==> a[k] == b[k],
        a != b,
    ensures
        precedes_from(a, b, from) || precedes_from(b, a, from),
    decreases a.len() - from,
{
    if from >= a.len() && from >= b.len() {
        assert(a =~= b);
    } else if from < a.len() && from < b.len() {
        if a[from] == b[from] {
            lemma_precedes_total(a, b, from + 1);
        } else {
            lemma_chars_ordered(a[from], b[from]);
        }
    }
}

/// The order is transitive.
pub proof fn lemma_precedes_transitive(a: Seq<char>, b: Seq<char>, c: Seq<char>, from: int)
    requires
        0 <= from,
        precedes_from(a, b, from),
        precedes_from(b, c, from),
    ensures
        precedes_from(a, c, from),
    decreases c.len() - from,
{
    if from < a.len() && a[from] == b[from] && b[from] == c[from] {
        lemma_precedes_transitive(a, b, c, from + 1);
    }
}

/// No text comes before itself.
pub proof fn lemma_precedes_irreflexive(a: Seq<char>, from: int)
    requires
        0 <= from,
    ensures
        !precedes_from(a, a, from),
    decreases a.len() - from,
{
    if from < a.len() {
        lemma_precedes_irreflexive(a, from + 1);
    }
}

/// Whether no text of the list comes before one that follows it.
pub open spec fn descending(list: Seq<Seq<char>>) -> bool {
    forall|i: int, j: int|
        0 <= i < j < list.len() ==> !precedes(#[trigger] list[i], #[trigger] list[j])
}

/// Where `x` goes into a descending list: before the first text, from
/// position `from` on, that does not come after it.
pub open spec fn insert_position(list: Seq<Seq<char>>, x: Seq<char>, from: int) -> int
    decreases list.len() - from,
{
    if from < 0 || from >= list.len() || !precedes(x, list[from]) {
        from
    } else {
        insert_position(list, x, from + 1)
    }
}

/// The texts of `list` in descending order, each put in its place in turn.
pub open spec fn sorted_descending(list: Seq<Seq<char>>) -> Seq<Seq<char>>
    decreases list.len(),
{
    if list.len() == 0 {
        list
    } else {
        let before = sorted_descending(list.drop_last());
        before.insert(insert_position(before, list.last(), 0), list.last())
    }
}

/// The texts of `names` from the last in the order to the first.
pub fn sort_descending(names: &Vec<String>) -> (out: Vec<String>)
    ensures
        texts(out@) == sorted_descending(texts(names@)),
        descending(texts(out@)),
        texts(out@).to_multiset() == texts(names@).to_multiset(),
        out@.len() == names@.len(),
{
    let mut out: Vec<String> = Vec::new();
    let mut k: usize = 0;
    assert(texts(names@).take(0) =~= texts(out@));
    while k < names.len()
        invariant
            k <= names@.len(),
            out@.len() == k,
            descending(texts(out@)),
            texts(out@) == sorted_descending(texts(names@).take(k as int)),
            texts(out@).to_multiset() == texts(names@).take(k as int).to_multiset(),
        decreases names@.len() - k,
    {
        let name = &names[k];
        let chars = chars_of(name.as_str());
        let mut p: usize = 0;
        while p < out.len() && comes_before(&chars, &chars_of(out[p].as_str()))
            invariant
                p <= out@.len(),
                chars@ == name@,
                forall|i: int| 0 <= i < p ==> precedes(name@, #[trigger] texts(out@)[i]),
                insert_position(texts(out@), name@, 0) == insert_position(
                    texts(out@),
                    name@,
                    p as int,
                ),
            decreases out@.len() - p,
        {
            p += 1;
        }
        let ghost before = texts(out@);
        proof {
            let given = texts(names@);
            assert(given.take(k + 1) =~= given.take(k as int).insert(k as int, name@));
            assert(given.take(k + 1).drop_last() =~= given.take(k as int));
            assert(given.take(k + 1).last() == name@);
            vstd::seq_lib::to_multiset_insert(given.take(k as int), k as int, name@);
            vstd::seq_lib::to_multiset_insert(before, p as int, name@);
        }
        out.insert(p, name.clone());
        proof {
            let after = texts(out@);
            assert(after =~= before.insert(p as int, name@));
            assert forall|i: int, j: int| 0 <= i < j < after.len() implies !precedes(
                #[trigger] after[i],
                #[trigger] after[j],
            ) by {
                if j == p {
                    // an earlier text comes after the new one, so not before it
                    assert(after[i] == before[i]);
                    if precedes(before[i], name@) {
                        lemma_precedes_transitive(name@, before[i], name@, 0);
                        lemma_precedes_irreflexive(name@, 0);
                    }
                } else if i == p {
                    // a later text is at most the one the new text stopped at
                    assert(after[j] == before[j - 1]);
                    if precedes(name@, before[j - 1]) {
                        if j - 1 > p {
                            if before[p as int] != before[j - 1] {
                                lemma_precedes_total(before[p as int], before[j - 1], 0);
                                lemma_precedes_transitive(
                                    name@,
                                    before[j - 1],
                                    before[p as int],
                                    0,
                                );
                            }
                        }
                    }
                } else if j < p {
                    assert(after[i] == before[i] && after[j] == before[j]);
                } else if i < p {
                    assert(after[i] == before[i] && after[j] == before[j - 1]);
                } else {
                    assert(after[i] == before[i - 1] && after[j] == before[j - 1]);
                }
            }
        }
        k += 1;
    }
    assert(texts(names@).take(k as int) =~= texts(names@));
    out
}

} // verus!
