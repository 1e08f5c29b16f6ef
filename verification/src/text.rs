//! Splitting a sequence at a separator and joining parts with one: the shape
//! of the slash-separated topic names and of the `;`-separated records.

use vstd::prelude::*;

verus! {

/// The parts of `s` between occurrences of `sep`, in order. There is always at
/// least one part: an empty sequence has one empty part.
pub open spec fn spec_split<T>(s: Seq<T>, sep: T) -> Seq<Seq<T>>
    decreases s.len(),
{
    if s.len() == 0 {
        seq![Seq::empty()]
    } else {
        let r = spec_split(s.drop_last(), sep);
        if s.last() == sep {
            r.push(Seq::empty())
        } else {
            r.update(r.len() - 1, r.last().push(s.last()))
        }
    }
}

/// The parts, in order, with `sep` between each two of them.
pub open spec fn spec_join<T>(parts: Seq<Seq<T>>, sep: T) -> Seq<T>
    decreases parts.len(),
{
    if parts.len() == 0 {
        Seq::empty()
    } else if parts.len() == 1 {
        parts[0]
    } else {
        spec_join(parts.drop_last(), sep).push(sep) + parts.last()
    }
}

/// `sep` occurs nowhere in `s`.
pub open spec fn free_of<T>(s: Seq<T>, sep: T) -> bool {
    forall|i: int| 0 <= i < s.len() ==> s[i] != sep
}

/// No part contains the separator.
pub open spec fn parts_free_of<T>(parts: Seq<Seq<T>>, sep: T) -> bool {
    forall|i: int| 0 <= i < parts.len() ==> free_of(#[trigger] parts[i], sep)
}

pub proof fn lemma_split_nonempty<T>(s: Seq<T>, sep: T)
    ensures
        spec_split(s, sep).len() >= 1,
    decreases s.len(),
{
    if s.len() > 0 {
        lemma_split_nonempty(s.drop_last(), sep);
    }
}

/// No part of a split holds the separator.
pub proof fn lemma_split_parts_free<T>(s: Seq<T>, sep: T)
    ensures
        parts_free_of(spec_split(s, sep), sep),
    decreases s.len(),
{
    if s.len() > 0 {
        lemma_split_nonempty(s.drop_last(), sep);
        lemma_split_parts_free(s.drop_last(), sep);
        let r = spec_split(s.drop_last(), sep);
        let out = spec_split(s, sep);
        assert forall|i: int| 0 <= i < out.len() implies free_of(#[trigger] out[i], sep) by {
            if i < r.len() - 1 || (s.last() == sep && i < r.len()) {
                assert(out[i] == r[i]);
            } else if s.last() == sep {
                assert(out[i] =~= Seq::<T>::empty());
            } else {
                assert(free_of(r[i], sep));
                assert(out[i] == r[i].push(s.last()));
            }
        }
    }
}

proof fn lemma_join_push_last<T>(parts: Seq<Seq<T>>, sep: T, x: T)
    requires
        parts.len() >= 1,
    ensures
        spec_join(parts.update(parts.len() - 1, parts.last().push(x)), sep) == spec_join(parts, sep).push(x),
{
    let q = parts.update(parts.len() - 1, parts.last().push(x));
    if parts.len() == 1 {
        assert(q[0] == parts[0].push(x));
    } else {
        assert(q.drop_last() =~= parts.drop_last());
        assert(q.last() == parts.last().push(x));
        assert(spec_join(q, sep) =~= spec_join(parts, sep).push(x));
    }
}

/// Joining the parts of a split with the same separator gives back the input.
pub proof fn lemma_join_split<T>(s: Seq<T>, sep: T)
    ensures
        spec_join(spec_split(s, sep), sep) == s,
    decreases s.len(),
{
    if s.len() == 0 {
        assert(spec_join(seq![Seq::<T>::empty()], sep) == Seq::<T>::empty());
    } else {
        let p = s.drop_last();
        lemma_join_split(p, sep);
        lemma_split_nonempty(p, sep);
        let r = spec_split(p, sep);
        if s.last() == sep {
            let q = r.push(Seq::<T>::empty());
            assert(q.drop_last() =~= r);
            assert(spec_join(q, sep) =~= s);
        } else {
            lemma_join_push_last(r, sep, s.last());
            assert(p.push(s.last()) =~= s);
        }
    }
}

proof fn lemma_split_append_free<T>(a: Seq<T>, l: Seq<T>, sep: T)
    requires
        free_of(l, sep),
    ensures
        spec_split(a.push(sep) + l, sep) == spec_split(a, sep).push(l),
    decreases l.len(),
{
    let s = a.push(sep) + l;
    if l.len() == 0 {
        assert(s =~= a.push(sep));
        assert(s.drop_last() =~= a);
        assert(l =~= Seq::<T>::empty());
    } else {
        let l2 = l.drop_last();
        assert(free_of(l2, sep));
        lemma_split_append_free(a, l2, sep);
        assert(s.drop_last() =~= a.push(sep) + l2);
        assert(s.last() == l.last());
        let r = spec_split(a, sep).push(l2);
        assert(l2.push(l.last()) =~= l);
        assert(r.update(r.len() - 1, r.last().push(l.last())) =~= spec_split(a, sep).push(l));
    }
}

proof fn lemma_split_free<T>(l: Seq<T>, sep: T)
    requires
        free_of(l, sep),
    ensures
        spec_split(l, sep) == seq![l],
    decreases l.len(),
{
    if l.len() == 0 {
        assert(l =~= Seq::<T>::empty());
    } else {
        let l2 = l.drop_last();
        assert(free_of(l2, sep));
        lemma_split_free(l2, sep);
        let r = seq![l2];
        assert(l2.push(l.last()) =~= l);
        assert(r.update(0, l2.push(l.last())) =~= seq![l]);
    }
}

/// Splitting a join gives back the parts, when there is at least one part and
/// none holds the separator.
pub proof fn lemma_split_join<T>(parts: Seq<Seq<T>>, sep: T)
    requires
        parts.len() >= 1,
        parts_free_of(parts, sep),
    ensures
        spec_split(spec_join(parts, sep), sep) == parts,
    decreases parts.len(),
{
    if parts.len() == 1 {
        assert(free_of(parts[0], sep));
        lemma_split_free(parts[0], sep);
        assert(seq![parts[0]] =~= parts);
    } else {
        let p = parts.drop_last();
        assert(parts_free_of(p, sep)) by {
            assert forall|i: int| 0 <= i < p.len() implies free_of(#[trigger] p[i], sep) by {
                assert(p[i] == parts[i]);
            }
        }
        lemma_split_join(p, sep);
        assert(free_of(parts[parts.len() - 1], sep));
        lemma_split_append_free(spec_join(p, sep), parts.last(), sep);
        assert(p.push(parts.last()) =~= parts);
    }
}

/// The contents of a list of byte vectors.
pub open spec fn byte_parts(v: Seq<Vec<u8>>) -> Seq<Seq<u8>> {
    Seq::new(v.len(), |i: int| v[i]@)
}

/// The parts of `s` between occurrences of `sep`.
pub fn split_bytes(s: &Vec<u8>, sep: u8) -> (parts: Vec<Vec<u8>>)
    ensures
        byte_parts(parts@) == spec_split(s@, sep),
{
    let mut parts: Vec<Vec<u8>> = Vec::new();
    let mut current: Vec<u8> = Vec::new();
    let mut i: usize = 0;
    while i < s.len()
        invariant
            i <= s@.len(),
            byte_parts(parts@).push(current@) == spec_split(s@.take(i as int), sep),
        decreases s.len() - i,
    {
        let ghost before = byte_parts(parts@).push(current@);
        let c = s[i];
        assert(s@.take(i + 1).drop_last() =~= s@.take(i as int));
        assert(s@.take(i + 1).last() == c);
        if c == sep {
            let done = current;
            parts.push(done);
            current = Vec::new();
            assert(byte_parts(parts@).push(current@) =~= before.push(Seq::empty()));
        } else {
            current.push(c);
            assert(byte_parts(parts@).push(current@) =~= before.update(before.len() - 1, before.last().push(c)));
        }
        i = i + 1;
    }
    assert(s@.take(s@.len() as int) =~= s@);
    parts.push(current);
    assert(byte_parts(parts@) =~= spec_split(s@, sep));
    parts
}

/// The parts, in order, with `sep` between each two of them.
pub fn join_bytes(parts: &Vec<Vec<u8>>, sep: u8) -> (s: Vec<u8>)
    ensures
        s@ == spec_join(byte_parts(parts@), sep),
{
    let mut out: Vec<u8> = Vec::new();
    let mut k: usize = 0;
    while k < parts.len()
        invariant
            k <= parts@.len(),
            out@ == spec_join(byte_parts(parts@).take(k as int), sep),
        decreases parts.len() - k,
    {
        let ghost prev = byte_parts(parts@).take(k as int);
        let ghost next = byte_parts(parts@).take(k + 1);
        assert(next.drop_last() =~= prev);
        if k > 0 {
            out.push(sep);
        }
        let part = &parts[k];
        let mut j: usize = 0;
        let ghost base = out@;
        while j < part.len()
            invariant
                j <= part@.len(),
                out@ == base + part@.take(j as int),
            decreases part.len() - j,
        {
            out.push(part[j]);
            j = j + 1;
            assert(part@.take(j as int) =~= part@.take(j - 1).push(part@[j - 1]));
        }
        assert(part@.take(j as int) =~= part@);
        k = k + 1;
        proof {
            if k == 1 {
                assert(spec_join(prev, sep) =~= Seq::<u8>::empty());
                assert(out@ =~= next[0]);
            } else {
                assert(out@ =~= spec_join(next, sep));
            }
        }
    }
    assert(byte_parts(parts@).take(parts@.len() as int) =~= byte_parts(parts@));
    out
}

/// The contents of a list of strings.
pub open spec fn string_parts(v: Seq<String>) -> Seq<Seq<char>> {
    Seq::new(v.len(), |i: int| v[i]@)
}

/// The parts of a text between occurrences of `sep`.
pub fn split_text(s: &str, sep: char) -> (parts: Vec<String>)
    ensures
        string_parts(parts@) == spec_split(s@, sep),
{
    let n = s.unicode_len();
    let mut parts: Vec<String> = Vec::new();
    let mut start: usize = 0;
    let mut i: usize = 0;
    assert(s@.take(0) =~= Seq::<char>::empty());
    assert(string_parts(parts@).push(s@.subrange(0, 0)) =~= seq![Seq::<char>::empty()]);
    while i < n
        invariant
            n == s@.len(),
            start <= i <= n,
            string_parts(parts@).push(s@.subrange(start as int, i as int)) == spec_split(s@.take(i as int), sep),
        decreases n - i,
    {
        let ghost before = string_parts(parts@).push(s@.subrange(start as int, i as int));
        let c = s.get_char(i);
        assert(s@.take(i + 1).drop_last() =~= s@.take(i as int));
        assert(s@.take(i + 1).last() == c);
        if c == sep {
            let part = s.substring_char(start, i).to_owned();
            let ghost old_parts = parts@;
            parts.push(part);
            assert(string_parts(parts@) =~= string_parts(old_parts).push(s@.subrange(start as int, i as int)));
            start = i + 1;
            assert(s@.subrange(start as int, (i + 1) as int) =~= Seq::<char>::empty());
            assert(string_parts(parts@).push(s@.subrange(start as int, (i + 1) as int)) =~= before.push(Seq::empty()));
        } else {
            assert(s@.subrange(start as int, (i + 1) as int) =~= s@.subrange(start as int, i as int).push(c));
            assert(string_parts(parts@).push(s@.subrange(start as int, (i + 1) as int))
                =~= before.update(before.len() - 1, before.last().push(c)));
        }
        i = i + 1;
    }
    assert(s@.take(n as int) =~= s@);
    let last = s.substring_char(start, n).to_owned();
    let ghost old_parts = parts@;
    parts.push(last);
    assert(string_parts(parts@) =~= string_parts(old_parts).push(s@.subrange(start as int, n as int)));
    assert(string_parts(parts@) =~= spec_split(s@, sep));
    parts
}

/// The texts, in order, with the one-character separator between each two
/// of them.
pub fn join_text(parts: &Vec<String>, sep: &str) -> (s: String)
    requires
        sep@.len() == 1,
    ensures
        s@ == spec_join(string_parts(parts@), sep@[0]),
{
    let mut out = String::new();
    let mut k: usize = 0;
    while k < parts.len()
        invariant
            sep@.len() == 1,
            k <= parts@.len(),
            out@ == spec_join(string_parts(parts@).take(k as int), sep@[0]),
        decreases parts.len() - k,
    {
        let ghost prev = string_parts(parts@).take(k as int);
        let ghost next = string_parts(parts@).take(k + 1);
        assert(next.drop_last() =~= prev);
        assert(next.last() == parts@[k as int]@);
        if k > 0 {
            out.append(sep);
            assert(out@ =~= spec_join(prev, sep@[0]).push(sep@[0]));
        }
        out.append(parts[k].as_str());
        k = k + 1;
        proof {
            if k == 1 {
                assert(spec_join(prev, sep@[0]) =~= Seq::<char>::empty());
                assert(out@ =~= next[0]);
            } else {
                assert(out@ =~= spec_join(next, sep@[0]));
            }
        }
    }
    assert(string_parts(parts@).take(parts@.len() as int) =~= string_parts(parts@));
    out
}

} // verus!
