//! Comparing and joining text.

use vstd::prelude::*;
use vstd::utf8::encode_utf8;

verus! {

/// Each part with the separator in front of it.
pub open spec fn prefixed(parts: Seq<Seq<char>>, separator: Seq<char>) -> Seq<char>
    decreases parts.len(),
{
    if parts.len() == 0 {
        Seq::empty()
    } else {
        prefixed(parts.drop_last(), separator) + separator + parts.last()
    }
}

/// The parts in order, with the separator between neighbours.
pub open spec fn joined(parts: Seq<Seq<char>>, separator: Seq<char>) -> Seq<char> {
    if parts.len() == 0 {
        Seq::empty()
    } else {
        parts[0] + prefixed(parts.drop_first(), separator)
    }
}

/// The texts that string slices hold.
pub open spec fn texts(parts: Seq<&str>) -> Seq<Seq<char>> {
    parts.map_values(|p: &str| p@)
}

/// Whether two strings hold the same characters.
pub fn same_text(a: &str, b: &str) -> (r: bool)
    ensures
        r == (a@ == b@),
{
    let x = a.as_bytes();
    let y = b.as_bytes();
    proof {
        vstd::utf8::encode_utf8_decode_utf8(a@);
        vstd::utf8::encode_utf8_decode_utf8(b@);
    }
    if x.len() != y.len() {
        return false;
    }
    let mut i: usize = 0;
    while i < x.len()
        invariant
            i <= x.len(),
            x.len() == y.len(),
            x@ == encode_utf8(a@),
            y@ == encode_utf8(b@),
            forall|k: int| 0 <= k < i ==> x@[k] == y@[k],
        decreases x.len() - i,
    {
        if x[i] != y[i] {
            return false;
        }
        i += 1;
    }
    assert(x@ =~= y@);
    true
}

/// Joins the parts with the separator between neighbours.
pub fn join(parts: &Vec<&str>, separator: &str) -> (r: String)
    ensures
        r@ == joined(texts(parts@), separator@),
{
    let mut out = String::new();
    if parts.len() == 0 {
        return out;
    }
    out.append(parts[0]);
    let ghost rest = texts(parts@).drop_first();
    assert(rest.take(0) =~= Seq::empty());
    assert(out@ =~= parts@[0]@ + prefixed(rest.take(0), separator@));
    let mut i: usize = 1;
    while i < parts.len()
        invariant
            1 <= i <= parts.len(),
            rest == texts(parts@).drop_first(),
            out@ == parts@[0]@ + prefixed(rest.take(i - 1), separator@),
        decreases parts.len() - i,
    {
        out.append(separator);
        out.append(parts[i]);
        proof {
            let next = rest.take(i as int);
            assert(next.drop_last() =~= rest.take(i - 1));
            assert(next.last() == parts@[i as int]@);
            assert(out@ =~= parts@[0]@ + prefixed(next, separator@));
        }
        i += 1;
    }
    assert(rest.take(parts.len() - 1) =~= rest);
    out
}

/// Putting the separator in front of the parts of two runs is putting it in front
/// of those of the one that they make.
proof fn prefixed_runs(first: Seq<Seq<char>>, second: Seq<Seq<char>>, separator: Seq<char>)
    ensures
        prefixed(first + second, separator) == prefixed(first, separator) + prefixed(
            second,
            separator,
        ),
    decreases second.len(),
{
    if second.len() == 0 {
        assert(first + second =~= first);
        assert(prefixed(first, separator) + Seq::<char>::empty() =~= prefixed(first, separator));
    } else {
        prefixed_runs(first, second.drop_last(), separator);
        assert((first + second).drop_last() =~= first + second.drop_last());
        assert((first + second).last() == second.last());
        let a = prefixed(first, separator);
        let b = prefixed(second.drop_last(), separator);
        assert(a + b + separator + second.last() =~= a + (b + separator + second.last()));
    }
}

/// Joining nothing gives nothing, joining one part gives that part, and joining two
/// runs of parts as one gives what the two give, with the separator once between.
pub proof fn joining_in_steps(
    part: Seq<char>,
    first: Seq<Seq<char>>,
    second: Seq<Seq<char>>,
    separator: Seq<char>,
)
    requires
        first.len() > 0,
        second.len() > 0,
    ensures
        joined(Seq::empty(), separator) == Seq::<char>::empty(),
        joined(seq![part], separator) == part,
        joined(first + second, separator) == joined(first, separator) + separator + joined(
            second,
            separator,
        ),
{
    assert(seq![part].drop_first() =~= Seq::empty());
    assert(part + prefixed(Seq::empty(), separator) =~= part);
    let front = first.drop_first();
    let back = second.drop_first();
    assert((first + second).drop_first() =~= front + second);
    assert(second =~= seq![second[0]] + back);
    prefixed_runs(front, second, separator);
    prefixed_runs(seq![second[0]], back, separator);
    assert(seq![second[0]].drop_last() =~= Seq::empty());
    reveal_with_fuel(prefixed, 2);
    let a = prefixed(front, separator);
    let c = prefixed(back, separator);
    assert(first[0] + (a + (separator + second[0] + c)) =~= first[0] + a + separator + (second[0]
        + c));
    assert(prefixed(seq![second[0]], separator) =~= separator + second[0]);
}

/// What is joined is as long as its parts and one separator fewer than it has parts.
pub proof fn joined_length(parts: Seq<Seq<char>>, last: Seq<char>, separator: Seq<char>)
    requires
        parts.len() > 0,
    ensures
        joined(parts.push(last), separator).len() == joined(parts, separator).len()
            + separator.len() + last.len(),
        parts[0].is_prefix_of(joined(parts, separator)),
        last.is_suffix_of(joined(parts.push(last), separator)),
{
    joining_in_steps(last, parts, seq![last], separator);
    assert(parts.push(last) =~= parts + seq![last]);
    assert(last =~= joined(parts.push(last), separator).skip(
        joined(parts, separator).len() + separator.len() as int,
    ));
}

/// Each slice stands at the place of the text that it holds.
pub proof fn texts_stand_in_place(parts: Seq<&str>, i: int)
    requires
        0 <= i < parts.len(),
    ensures
        texts(parts).len() == parts.len(),
        texts(parts)[i] == parts[i]@,
{
}

} // verus!
