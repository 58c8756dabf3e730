//! Building text from pieces: joining with a separator and wrapping each piece.

use vstd::prelude::*;

use crate::types::strings_view;

verus! {

/// The texts in `items`, with `sep` between each two neighbours.
pub open spec fn join(items: Seq<Seq<char>>, sep: Seq<char>) -> Seq<char>
    decreases items.len(),
{
    if items.len() == 0 {
        Seq::empty()
    } else if items.len() == 1 {
        items[0]
    } else {
        join(items.drop_last(), sep) + sep + items.last()
    }
}

/// Each text in `xs` between `before` and `after`.
pub open spec fn wrap_each(xs: Seq<Seq<char>>, before: Seq<char>, after: Seq<char>) -> Seq<
    Seq<char>,
> {
    xs.map_values(|x: Seq<char>| before + x + after)
}

/// Each text `x` in `xs` as `a + x + b + x + c`.
pub open spec fn wrap_each_twice(xs: Seq<Seq<char>>, a: Seq<char>, b: Seq<char>, c: Seq<char>) -> Seq<
    Seq<char>,
> {
    xs.map_values(|x: Seq<char>| a + x + b + x + c)
}

/// The texts in `items`, with `sep` between each two neighbours.
pub fn join_texts(items: &Vec<String>, sep: &str) -> (res: String)
    ensures
        res@ == join(strings_view(items@), sep@),
{
    let ghost all = strings_view(items@);
    let mut out = String::new();
    let mut i: usize = 0;
    assert(all.take(0) =~= Seq::<Seq<char>>::empty());
    while i < items.len()
        invariant
            i <= items.len(),
            all == strings_view(items@),
            out@ == join(all.take(i as int), sep@),
        decreases items.len() - i,
    {
        assert(all.take(i + 1).drop_last() =~= all.take(i as int));
        assert(all.take(i + 1).last() == items@[i as int]@);
        if i == 0 {
            assert(all.take(1) =~= seq![items@[0]@]);
            out.append(items[i].as_str());
            assert(out@ =~= items@[0]@);
        } else {
            let ghost before = out@;
            out.append(sep);
            out.append(items[i].as_str());
            assert(out@ =~= before + sep@ + items@[i as int]@);
        }
        i = i + 1;
    }
    assert(all.take(i as int) =~= all);
    out
}

/// Each text in `xs` between `before` and `after`.
pub fn wrap_texts(xs: &Vec<String>, before: &str, after: &str) -> (res: Vec<String>)
    ensures
        strings_view(res@) == wrap_each(strings_view(xs@), before@, after@),
{
    let mut out: Vec<String> = Vec::new();
    let mut i: usize = 0;
    while i < xs.len()
        invariant
            i <= xs.len(),
            strings_view(out@) == wrap_each(strings_view(xs@.take(i as int)), before@, after@),
        decreases xs.len() - i,
    {
        let mut piece: String = before.to_owned();
        piece.append(xs[i].as_str());
        piece.append(after);
        let ghost prev = out@;
        out.push(piece);
        assert(xs@.take(i + 1) =~= xs@.take(i as int).push(xs@[i as int]));
        assert(strings_view(out@) =~= strings_view(prev).push(piece@));
        assert(strings_view(out@) =~= wrap_each(
            strings_view(xs@.take(i + 1)),
            before@,
            after@,
        ));
        i = i + 1;
    }
    assert(xs@.take(i as int) =~= xs@);
    out
}

/// Each text `x` in `xs` as `a + x + b + x + c`.
pub fn wrap_texts_twice(xs: &Vec<String>, a: &str, b: &str, c: &str) -> (res: Vec<String>)
    ensures
        strings_view(res@) == wrap_each_twice(strings_view(xs@), a@, b@, c@),
{
    let mut out: Vec<String> = Vec::new();
    let mut i: usize = 0;
    while i < xs.len()
        invariant
            i <= xs.len(),
            strings_view(out@) == wrap_each_twice(strings_view(xs@.take(i as int)), a@, b@, c@),
        decreases xs.len() - i,
    {
        let mut piece: String = a.to_owned();
        piece.append(xs[i].as_str());
        piece.append(b);
        piece.append(xs[i].as_str());
        piece.append(c);
        let ghost prev = out@;
        out.push(piece);
        assert(xs@.take(i + 1) =~= xs@.take(i as int).push(xs@[i as int]));
        assert(strings_view(out@) =~= strings_view(prev).push(piece@));
        assert(strings_view(out@) =~= wrap_each_twice(strings_view(xs@.take(i + 1)), a@, b@, c@));
        i = i + 1;
    }
    assert(xs@.take(i as int) =~= xs@);
    out
}

} // verus!
