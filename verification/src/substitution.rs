//! Positional substitution: the placeholders `{0}`, `{1}`, ... of a template
//! are replaced by the arguments at those positions.

use crate::text::{
    decimal, decimal_text, lemma_decimal_injective, lemma_decimal_shape,
    lemma_replace_keeps_start, lemma_replace_without_occurrence, occurs_in, replace, replace_all,
};
use vstd::prelude::*;

verus! {

/// The placeholder that stands for the argument at `index`: the numeral of
/// the index between braces.
pub open spec fn placeholder(index: nat) -> Seq<char> {
    seq!['{'] + decimal(index) + seq!['}']
}

/// Writes the placeholder for the argument at `index`.
pub fn placeholder_text(index: usize) -> (text: String)
    ensures
        text@ == placeholder(index as nat),
{
    let mut text = String::from_str("{");
    text.append(decimal_text(index).as_str());
    text.append("}");
    proof {
        reveal_strlit("{");
        reveal_strlit("}");
    }
    text
}

/// The views of a list of arguments.
pub open spec fn texts(args: Seq<&str>) -> Seq<Seq<char>> {
    args.map_values(|arg: &str| arg@)
}

/// The template after positional substitution: for each argument in order,
/// every occurrence of its placeholder in the text so far is replaced by the
/// argument. This is replacement of text and nothing more: braces are not
/// escaped, and what an argument brings in is text like any other for the
/// arguments after it. A placeholder without an argument stays as it is, and
/// an argument without a placeholder changes nothing.
pub open spec fn substituted(template: Seq<char>, args: Seq<Seq<char>>) -> Seq<char>
    decreases args.len(),
{
    if args.len() == 0 {
        template
    } else {
        replace_all(
            substituted(template, args.drop_last()),
            placeholder((args.len() - 1) as nat),
            args.last(),
        )
    }
}

/// Substitutes the arguments for their placeholders in `template`.
pub fn substitute(template: &str, args: &[&str]) -> (out: String)
    ensures
        out@ == substituted(template@, texts(args@)),
{
    let mut out = String::from_str(template);
    let mut i: usize = 0;
    while i < args.len()
        invariant
            i <= args.len(),
            out@ == substituted(template@, texts(args@).take(i as int)),
        decreases args.len() - i,
    {
        let pattern = placeholder_text(i);
        proof {
            let upto = texts(args@).take(i + 1);
            assert(upto.drop_last() == texts(args@).take(i as int));
            assert(upto.last() == args@[i as int]@);
        }
        out = replace(out.as_str(), pattern.as_str(), args[i]);
        i = i + 1;
    }
    assert(texts(args@).take(i as int) == texts(args@));
    out
}

/// The shape of a placeholder: an opening brace, then digits, then a closing
/// brace, and no brace in between.
pub proof fn lemma_placeholder_shape(index: nat)
    ensures
        placeholder(index).len() >= 3,
        placeholder(index)[0] == '{',
        placeholder(index).last() == '}',
        forall|k: int| 0 < k < placeholder(index).len() ==> placeholder(index)[k] != '{',
        forall|k: int| 0 <= k < placeholder(index).len() - 1 ==> placeholder(index)[k] != '}',
        placeholder(index).subrange(1, placeholder(index).len() - 1) == decimal(index),
{
    lemma_decimal_shape(index);
    let p = placeholder(index);
    let d = decimal(index);
    assert(p.len() == d.len() + 2);
    assert forall|k: int| 0 < k < p.len() - 1 implies p[k] == d[k - 1] by {}
    assert(p.subrange(1, p.len() - 1) =~= d);
}

/// An argument whose placeholder does not occur in the text so far is
/// ignored: the result is the same as without it.
pub proof fn lemma_argument_without_placeholder(template: Seq<char>, args: Seq<Seq<char>>)
    requires
        args.len() > 0,
        !occurs_in(
            placeholder((args.len() - 1) as nat),
            substituted(template, args.drop_last()),
        ),
    ensures
        substituted(template, args) == substituted(template, args.drop_last()),
{
    lemma_replace_without_occurrence(
        substituted(template, args.drop_last()),
        placeholder((args.len() - 1) as nat),
        args.last(),
    );
}

/// Two placeholders that begin at the same place of a text are the same.
proof fn lemma_placeholders_at_one_place(text: Seq<char>, i: nat, j: nat)
    requires
        placeholder(i).is_prefix_of(text),
        placeholder(j).is_prefix_of(text),
    ensures
        i == j,
{
    let p = placeholder(i);
    let q = placeholder(j);
    lemma_placeholder_shape(i);
    lemma_placeholder_shape(j);
    assert(p == text.take(p.len() as int));
    assert(q == text.take(q.len() as int));
    if p.len() < q.len() {
        assert(q[p.len() - 1] == text[p.len() - 1]);
        assert(p[p.len() - 1] == text[p.len() - 1]);
    } else if q.len() < p.len() {
        assert(p[q.len() - 1] == text[q.len() - 1]);
        assert(q[q.len() - 1] == text[q.len() - 1]);
    } else {
        assert(p == q);
        lemma_decimal_injective(i, j);
    }
}

/// Replacing one placeholder leaves every occurrence of another in place.
pub proof fn lemma_other_placeholder_survives(text: Seq<char>, i: nat, j: nat, with: Seq<char>)
    requires
        i != j,
        occurs_in(placeholder(j), text),
    ensures
        occurs_in(placeholder(j), replace_all(text, placeholder(i), with)),
    decreases text.len(),
{
    let p = placeholder(i);
    let q = placeholder(j);
    lemma_placeholder_shape(i);
    lemma_placeholder_shape(j);
    let at = choose|at: int| 0 <= at <= text.len() && #[trigger] q.is_prefix_of(text.skip(at));
    assert(text.skip(at).take(q.len() as int) == q);
    assert(text.len() > 0);
    let replaced = replace_all(text, p, with);
    if p.is_prefix_of(text) {
        let rest = text.skip(p.len() as int);
        assert(text.take(p.len() as int) == p);
        if at == 0 {
            assert(text.skip(0) == text);
            lemma_placeholders_at_one_place(text, i, j);
        } else if at < p.len() {
            assert(text.skip(at)[0] == q[0]);
            assert(text[at] == p[at]);
        }
        assert(at >= p.len());
        assert(rest.skip(at - p.len()) == text.skip(at));
        assert(q.is_prefix_of(rest.skip(at - p.len())));
        lemma_other_placeholder_survives(rest, i, j, with);
        let inner = replace_all(rest, p, with);
        let found = choose|found: int|
            0 <= found <= inner.len() && #[trigger] q.is_prefix_of(inner.skip(found));
        assert((with + inner).skip(with.len() + found) == inner.skip(found));
        assert(q.is_prefix_of(replaced.skip(with.len() + found)));
    } else {
        let rest = text.skip(1);
        let inner = replace_all(rest, p, with);
        if at == 0 {
            assert(text.skip(0) == text);
            assert forall|k: int| 0 <= k < q.len() - 1 implies rest[k] != p[0] by {
                assert(rest[k] == text[k + 1]);
                assert(text[k + 1] == q[k + 1]);
            }
            lemma_replace_keeps_start(rest, p, with, q.len() - 1);
            assert(inner.take(q.len() - 1) == rest.take(q.len() - 1));
            assert(text[0] == q[0]);
            assert(replaced.take(q.len() as int) =~= q) by {
                assert forall|k: int| 0 <= k < q.len() implies replaced[k] == q[k] by {
                    if k > 0 {
                        assert(replaced[k] == inner[k - 1]);
                        assert(inner[k - 1] == inner.take(q.len() - 1)[k - 1]);
                        assert(rest.take(q.len() - 1)[k - 1] == text[k]);
                    }
                }
            }
            assert(replaced.skip(0) == replaced);
            assert(q.is_prefix_of(replaced.skip(0)));
        } else {
            assert(rest.skip(at - 1) == text.skip(at));
            assert(q.is_prefix_of(rest.skip(at - 1)));
            lemma_other_placeholder_survives(rest, i, j, with);
            let found = choose|found: int|
                0 <= found <= inner.len() && #[trigger] q.is_prefix_of(inner.skip(found));
            assert((seq![text[0]] + inner).skip(1 + found) == inner.skip(found));
            assert(q.is_prefix_of(replaced.skip(1 + found)));
        }
    }
}

/// A placeholder for which no argument was supplied stays in the text.
pub proof fn lemma_placeholder_without_argument_stays(
    template: Seq<char>,
    args: Seq<Seq<char>>,
    index: nat,
)
    requires
        index >= args.len(),
        occurs_in(placeholder(index), template),
    ensures
        occurs_in(placeholder(index), substituted(template, args)),
    decreases args.len(),
{
    if args.len() > 0 {
        lemma_placeholder_without_argument_stays(template, args.drop_last(), index);
        lemma_other_placeholder_survives(
            substituted(template, args.drop_last()),
            (args.len() - 1) as nat,
            index,
            args.last(),
        );
    }
}

} // verus!
