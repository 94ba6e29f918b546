//! Literal text replacement and `{{name}}` placeholders.
//!
//! Texts are modelled as sequences of characters. Replacement is literal:
//! occurrences are found left to right, they never overlap, and what has
//! been written in place of an occurrence is not looked at again.

use vstd::prelude::*;
use vstd::string::*;
use crate::string_map::{text_pairs, StringMap};

verus! {

/// `pattern` stands in `text` at position `at`.
pub open spec fn matches_at(text: Seq<char>, pattern: Seq<char>, at: int) -> bool {
    &&& 0 <= at
    &&& at + pattern.len() <= text.len()
    &&& text.subrange(at, at + pattern.len()) == pattern
}

/// `pattern` stands somewhere in `text`.
pub open spec fn occurs_in(text: Seq<char>, pattern: Seq<char>) -> bool {
    exists|at: int| matches_at(text, pattern, at)
}

/// `text` with every occurrence of `pattern` replaced by `with`, scanning
/// from the left and skipping past each occurrence once it is replaced.
/// An empty pattern replaces nothing.
pub open spec fn replace_all(text: Seq<char>, pattern: Seq<char>, with: Seq<char>) -> Seq<char>
    decreases text.len(),
{
    if pattern.len() == 0 || text.len() < pattern.len() {
        text
    } else if matches_at(text, pattern, 0) {
        with + replace_all(text.skip(pattern.len() as int), pattern, with)
    } else {
        text.take(1) + replace_all(text.skip(1), pattern, with)
    }
}

/// The placeholder that stands for the variable `name`: the name between
/// double curly braces, with nothing added or trimmed.
pub open spec fn placeholder_of(name: Seq<char>) -> Seq<char> {
    seq!['{', '{'] + name + seq!['}', '}']
}

/// `text` after the variables of `entries` have been filled in, one entry
/// after the other: each entry replaces every occurrence of its placeholder
/// in what the entries before it have left.
pub open spec fn substitute(text: Seq<char>, entries: Seq<(Seq<char>, Seq<char>)>) -> Seq<char>
    decreases entries.len(),
{
    if entries.len() == 0 {
        text
    } else {
        substitute(
            replace_all(text, placeholder_of(entries[0].0), entries[0].1),
            entries.drop_first(),
        )
    }
}

/// A text in which the pattern does not occur is left as it is.
pub proof fn lemma_replace_absent(text: Seq<char>, pattern: Seq<char>, with: Seq<char>)
    requires
        !occurs_in(text, pattern),
    ensures
        replace_all(text, pattern, with) == text,
    decreases text.len(),
{
    if pattern.len() == 0 || text.len() < pattern.len() {
    } else {
        assert(!matches_at(text, pattern, 0));
        let rest = text.skip(1);
        assert forall|at: int| !matches_at(rest, pattern, at) by {
            if matches_at(rest, pattern, at) {
                assert(rest.subrange(at, at + pattern.len()) =~= text.subrange(
                    at + 1,
                    at + 1 + pattern.len(),
                ));
                assert(matches_at(text, pattern, at + 1));
            }
        }
        lemma_replace_absent(rest, pattern, with);
        assert(text.take(1) + rest =~= text);
    }
}

/// Where the first occurrence of a non-empty pattern starts right after
/// `before`, the result is `before`, then the replacement, then what
/// replacement makes of the text after that occurrence.
pub proof fn lemma_replace_first(
    before: Seq<char>,
    pattern: Seq<char>,
    after: Seq<char>,
    with: Seq<char>,
)
    requires
        pattern.len() > 0,
        forall|at: int|
            0 <= at < before.len() ==> !matches_at(before + pattern + after, pattern, at),
    ensures
        replace_all(before + pattern + after, pattern, with) == before + with + replace_all(
            after,
            pattern,
            with,
        ),
    decreases before.len(),
{
    let text = before + pattern + after;
    if before.len() == 0 {
        assert(text.subrange(0, pattern.len() as int) =~= pattern);
        assert(text.skip(pattern.len() as int) =~= after);
        assert(before + with + replace_all(after, pattern, with) =~= with + replace_all(
            after,
            pattern,
            with,
        ));
    } else {
        assert(!matches_at(text, pattern, 0));
        let shorter = before.skip(1);
        assert(text.skip(1) =~= shorter + pattern + after);
        assert forall|at: int| 0 <= at < shorter.len() implies !matches_at(
            shorter + pattern + after,
            pattern,
            at,
        ) by {
            if matches_at(text.skip(1), pattern, at) {
                assert(text.skip(1).subrange(at, at + pattern.len()) =~= text.subrange(
                    at + 1,
                    at + 1 + pattern.len(),
                ));
                assert(matches_at(text, pattern, at + 1));
            }
        }
        lemma_replace_first(shorter, pattern, after, with);
        assert(text.take(1) + (shorter + with + replace_all(after, pattern, with)) =~= before
            + with + replace_all(after, pattern, with));
    }
}

/// A text in which no placeholder of the environment occurs comes out of
/// substitution as it went in. In particular a placeholder for a name
/// that is not set stays as literal text.
pub proof fn lemma_substitute_absent(text: Seq<char>, entries: Seq<(Seq<char>, Seq<char>)>)
    requires
        forall|i: int|
            0 <= i < entries.len() ==> !occurs_in(text, placeholder_of((#[trigger] entries[i]).0)),
    ensures
        substitute(text, entries) == text,
    decreases entries.len(),
{
    if entries.len() > 0 {
        lemma_replace_absent(text, placeholder_of(entries[0].0), entries[0].1);
        let rest = entries.drop_first();
        assert forall|i: int| 0 <= i < rest.len() implies !occurs_in(
            text,
            placeholder_of((#[trigger] rest[i]).0),
        ) by {
            assert(rest[i] == entries[i + 1]);
        }
        lemma_substitute_absent(text, rest);
    }
}

/// Substitution with a list of entries is substitution with a front part
/// of the list, followed by substitution with the rest.
pub proof fn lemma_substitute_split(text: Seq<char>, entries: Seq<(Seq<char>, Seq<char>)>, k: int)
    requires
        0 <= k <= entries.len(),
    ensures
        substitute(text, entries) == substitute(
            substitute(text, entries.take(k)),
            entries.skip(k),
        ),
    decreases k,
{
    if k == 0 {
        assert(entries.take(0) =~= Seq::<(Seq<char>, Seq<char>)>::empty());
        assert(entries.skip(0) =~= entries);
    } else {
        let first = replace_all(text, placeholder_of(entries[0].0), entries[0].1);
        let rest = entries.drop_first();
        lemma_substitute_split(first, rest, k - 1);
        assert(entries.take(k).drop_first() =~= rest.take(k - 1));
        assert(rest.skip(k - 1) =~= entries.skip(k));
        assert(entries.take(k)[0] == entries[0]);
    }
}

/// Where the placeholder of one variable is the only placeholder of the
/// environment that the text holds, and the text that results holds none
/// of the variables that come later, substitution replaces that
/// placeholder by the variable's value and does nothing else.
pub proof fn lemma_substitute_one(text: Seq<char>, entries: Seq<(Seq<char>, Seq<char>)>, k: int)
    requires
        0 <= k < entries.len(),
        forall|i: int|
            0 <= i < k ==> !occurs_in(text, placeholder_of((#[trigger] entries[i]).0)),
        forall|i: int|
            k < i < entries.len() ==> !occurs_in(
                replace_all(text, placeholder_of(entries[k].0), entries[k].1),
                placeholder_of((#[trigger] entries[i]).0),
            ),
    ensures
        substitute(text, entries) == replace_all(
            text,
            placeholder_of(entries[k].0),
            entries[k].1,
        ),
{
    let replaced = replace_all(text, placeholder_of(entries[k].0), entries[k].1);
    let front = entries.take(k);
    let back = entries.skip(k);
    lemma_substitute_split(text, entries, k);
    assert forall|i: int| 0 <= i < front.len() implies !occurs_in(
        text,
        placeholder_of((#[trigger] front[i]).0),
    ) by {
        assert(front[i] == entries[i]);
    }
    lemma_substitute_absent(text, front);
    assert(back[0] == entries[k]);
    let later = back.drop_first();
    assert forall|i: int| 0 <= i < later.len() implies !occurs_in(
        replaced,
        placeholder_of((#[trigger] later[i]).0),
    ) by {
        assert(later[i] == entries[k + 1 + i]);
    }
    lemma_substitute_absent(replaced, later);
}

/// With a single variable set, a text that is exactly the placeholder of
/// that variable becomes the variable's value, whatever the value holds.
pub proof fn lemma_substitute_placeholder(name: Seq<char>, value: Seq<char>)
    ensures
        substitute(placeholder_of(name), seq![(name, value)]) == value,
{
    let pattern = placeholder_of(name);
    let entries = seq![(name, value)];
    assert(pattern.len() == name.len() + 4);
    lemma_replace_first(Seq::empty(), pattern, Seq::empty(), value);
    assert(Seq::<char>::empty() + pattern + Seq::<char>::empty() =~= pattern);
    assert(replace_all(Seq::<char>::empty(), pattern, value) =~= Seq::<char>::empty());
    assert(Seq::<char>::empty() + value + Seq::<char>::empty() =~= value);
    assert(entries.drop_first() =~= Seq::<(Seq<char>, Seq<char>)>::empty());
    assert(substitute(value, entries.drop_first()) == value);
}

/// The characters of `text`, one element per Unicode scalar value.
fn chars_of(text: &str) -> (out: Vec<char>)
    ensures
        out@ == text@,
{
    let mut out: Vec<char> = Vec::new();
    for c in it: text.chars()
        invariant
            it.seq() == text@,
            out@ == text@.take(it.index() as int),
    {
        out.push(c);
    }
    out
}

/// Whether `pattern` stands in `text` at `at`.
fn matches_here(text: &Vec<char>, pattern: &Vec<char>, at: usize) -> (found: bool)
    requires
        at + pattern.len() <= text.len(),
    ensures
        found == matches_at(text@, pattern@, at as int),
{
    let mut j: usize = 0;
    while j < pattern.len()
        invariant
            j <= pattern.len(),
            at + pattern.len() <= text.len(),
            forall|k: int| 0 <= k < j ==> text@[at + k] == pattern@[k],
        decreases pattern.len() - j,
    {
        if text[at + j] != pattern[j] {
            assert(text@.subrange(at as int, at + pattern.len())[j as int] != pattern@[j as int]);
            return false;
        }
        j += 1;
    }
    assert(text@.subrange(at as int, at + pattern.len()) =~= pattern@);
    true
}

/// Replaces every occurrence of `pattern` in `text` by `with`. An empty
/// pattern replaces nothing.
pub fn replace_literal(text: &str, pattern: &str, with: &str) -> (out: String)
    ensures
        out@ == replace_all(text@, pattern@, with@),
{
    let t = chars_of(text);
    let p = chars_of(pattern);
    let n = t.len();
    let m = p.len();
    let mut out = String::new();
    if m == 0 || m > n {
        out.append(text);
        assert(out@ =~= text@);
        return out;
    }
    let mut i: usize = 0;
    let mut start: usize = 0;
    assert(t@.skip(0) =~= t@);
    assert(out@ + t@.subrange(0, 0) + replace_all(t@, p@, with@) =~= replace_all(t@, p@, with@));
    while i <= n - m
        invariant
            t@ == text@,
            p@ == pattern@,
            n == t.len(),
            m == p.len(),
            0 < m <= n,
            start <= i <= n,
            replace_all(t@, p@, with@) == out@ + t@.subrange(start as int, i as int) + replace_all(
                t@.skip(i as int),
                p@,
                with@,
            ),
        decreases n - i,
    {
        let ghost rest = t@.skip(i as int);
        assert(rest.subrange(0, m as int) =~= t@.subrange(i as int, i + m));
        if matches_here(&t, &p, i) {
            assert(matches_at(rest, p@, 0));
            assert(rest.skip(m as int) =~= t@.skip(i + m));
            out.append(text.substring_char(start, i));
            out.append(with);
            i += m;
            start = i;
            assert(t@.subrange(start as int, i as int) =~= Seq::<char>::empty());
        } else {
            assert(!matches_at(rest, p@, 0));
            assert(rest.skip(1) =~= t@.skip(i + 1));
            assert(t@.subrange(start as int, i as int) + rest.take(1) =~= t@.subrange(
                start as int,
                i + 1,
            ));
            i += 1;
        }
    }
    assert(replace_all(t@.skip(i as int), p@, with@) == t@.skip(i as int));
    assert(t@.subrange(start as int, i as int) + t@.skip(i as int) =~= t@.subrange(
        start as int,
        n as int,
    ));
    out.append(text.substring_char(start, n));
    out
}

/// The placeholder text for the variable `name`.
pub fn placeholder(name: &str) -> (out: String)
    ensures
        out@ == placeholder_of(name@),
{
    proof {
        reveal_strlit("{{");
        reveal_strlit("}}");
    }
    let mut out = String::new();
    out.append("{{");
    out.append(name);
    out.append("}}");
    assert(out@ =~= placeholder_of(name@));
    out
}

/// Replaces every occurrence of the placeholder of `name` in `text` by
/// `value`. The value is inserted as it is: placeholders inside it are
/// not expanded.
pub fn fill_placeholder(text: &str, name: &str, value: &str) -> (out: String)
    ensures
        out@ == replace_all(text@, placeholder_of(name@), value@),
{
    let pattern = placeholder(name);
    replace_literal(text, pattern.as_str(), value)
}

/// Fills in the variables of `env` in `text`, in the order of `env`.
pub fn substitute_text(text: &str, env: &StringMap) -> (out: String)
    ensures
        out@ == substitute(text@, env.entries()),
{
    let entries = env.pairs();
    let ghost all = env.entries();
    let mut out = text.to_owned();
    let mut i: usize = 0;
    assert(all.skip(0) =~= all);
    while i < entries.len()
        invariant
            i <= entries.len(),
            all == text_pairs(entries@),
            substitute(text@, all) == substitute(out@, all.skip(i as int)),
        decreases entries.len() - i,
    {
        assert(all.skip(i as int).drop_first() =~= all.skip(i + 1));
        assert(all[i as int] == (entries@[i as int].0@, entries@[i as int].1@));
        out = fill_placeholder(out.as_str(), entries[i].0.as_str(), entries[i].1.as_str());
        i += 1;
    }
    out
}

} // verus!
