//! What holds of every grammar and every line: the laws of the walk.

use crate::dispatcher::{
    find_argument, find_literal, resolve, resolve_line, unknown_message, ArgKind, ArgsView,
    DispatchErrorView, InvocationView, MatcherView, NodeView, unambiguous,
};
use crate::text::{is_word, joined, lemma_words_of_joined, words};
use vstd::prelude::*;

verus! {

/// The node reached from `node` by taking, for each word of `path[i..]`, the
/// literal child with that token; none if such a child is missing on the
/// way.
pub open spec fn literal_descent<H>(node: NodeView<H>, path: Seq<Seq<char>>, i: int) -> Option<
    NodeView<H>,
>
    decreases path.len() - i,
{
    if i < 0 || i >= path.len() {
        Some(node)
    } else {
        match find_literal(node.children, path[i], 0) {
            Some(k) => literal_descent(node.children[k], path, i + 1),
            None => None,
        }
    }
}

/// What `find_literal` finds is a literal child with the token.
pub proof fn lemma_find_literal_found<H>(children: Seq<NodeView<H>>, tok: Seq<char>, from: int)
    requires
        0 <= from,
    ensures
        match find_literal(children, tok, from) {
            Some(k) => from <= k < children.len() && children[k].matcher == MatcherView::Literal(
                tok,
            ),
            None => forall|j: int|
                from <= j < children.len() ==> (#[trigger] children[j]).matcher
                    != MatcherView::Literal(tok),
        },
    decreases children.len() - from,
{
    if from < children.len() && children[from].matcher != MatcherView::Literal(tok) {
        lemma_find_literal_found(children, tok, from + 1);
    }
}

/// In a valid grammar a token names at most one child: the literal child
/// registered with it is the one the walk takes.
pub proof fn lemma_find_literal_unique<H>(children: Seq<NodeView<H>>, tok: Seq<char>, k: int)
    requires
        unambiguous(children),
        0 <= k < children.len(),
        children[k].matcher == MatcherView::Literal(tok),
    ensures
        find_literal(children, tok, 0) == Some(k),
{
    lemma_find_literal_found(children, tok, 0);
    let found = find_literal(children, tok, 0);
    assert(found is Some);
    let f = found->0;
    if f != k {
        if f < k {
            assert(children[f].matcher.clashes(children[k].matcher));
        } else {
            assert(children[k].matcher.clashes(children[f].matcher));
        }
    }
}

/// While the words are tokens of literal children, the walk goes where the
/// literals lead and binds nothing.
pub proof fn lemma_walk_follows_literals<H>(
    node: NodeView<H>,
    path: Seq<Seq<char>>,
    toks: Seq<Seq<char>>,
    i: int,
    args: ArgsView,
)
    requires
        0 <= i <= path.len() <= toks.len(),
        toks.take(path.len() as int) == path,
        literal_descent(node, path, i) is Some,
    ensures
        resolve(node, toks, i, args) == resolve(
            literal_descent(node, path, i)->0,
            toks,
            path.len() as int,
            args,
        ),
    decreases path.len() - i,
{
    if i < path.len() {
        assert(toks[i] == toks.take(path.len() as int)[i]);
        let k = find_literal(node.children, path[i], 0)->0;
        lemma_walk_follows_literals(node.children[k], path, toks, i + 1, args);
    }
}

/// A line that is exactly the tokens of a registered path of literals,
/// whose last node has the handler `h`, leads to `h` with nothing bound.
pub proof fn lemma_literal_path_reaches_handler<H>(root: NodeView<H>, path: Seq<Seq<char>>, h: H)
    requires
        forall|i: int| 0 <= i < path.len() ==> is_word(#[trigger] path[i]),
        literal_descent(root, path, 0) matches Some(n) && n.handler == Some(h),
    ensures
        resolve_line(root, joined(path, " "@)) == Ok::<InvocationView<H>, DispatchErrorView>(
            InvocationView { handler: h, args: Seq::empty() },
        ),
{
    lemma_words_of_joined(path);
    assert(path.take(path.len() as int) =~= path);
    lemma_walk_follows_literals(root, path, path, 0, Seq::empty());
}

/// A line made of a registered path of literals and then more words, where
/// the path ends at a node whose argument child is greedy and has the
/// handler `h`, and no literal child there takes the first of those words:
/// the line leads to `h`, and the argument is bound to all those words,
/// joined by single spaces.
pub proof fn lemma_greedy_binds_rest<H>(
    root: NodeView<H>,
    path: Seq<Seq<char>>,
    rest: Seq<Seq<char>>,
    name: Seq<char>,
    h: H,
)
    requires
        forall|i: int| 0 <= i < path.len() ==> is_word(#[trigger] path[i]),
        forall|i: int| 0 <= i < rest.len() ==> is_word(#[trigger] rest[i]),
        rest.len() > 0,
        literal_descent(root, path, 0) matches Some(n) && {
            &&& find_literal(n.children, rest[0], 0) is None
            &&& find_argument(n.children, 0) matches Some(k)
            &&& n.children[k].matcher == (MatcherView::Argument { name, kind: ArgKind::Greedy })
            &&& n.children[k].handler == Some(h)
        },
    ensures
        resolve_line(root, joined(path + rest, " "@)) == Ok::<
            InvocationView<H>,
            DispatchErrorView,
        >(InvocationView { handler: h, args: seq![(name, joined(rest, " "@))] }),
        words(joined(rest, " "@)) == rest,
{
    let toks = path + rest;
    assert forall|i: int| 0 <= i < toks.len() implies is_word(#[trigger] toks[i]) by {
        if i < path.len() {
            assert(toks[i] == path[i]);
        } else {
            assert(toks[i] == rest[i - path.len()]);
        }
    }
    lemma_words_of_joined(toks);
    lemma_words_of_joined(rest);
    assert(toks.take(path.len() as int) =~= path);
    lemma_walk_follows_literals(root, path, toks, 0, Seq::empty());
    let n = literal_descent(root, path, 0)->0;
    let at = path.len() as int;
    assert(toks[at] == rest[0]);
    assert(toks.skip(at) =~= rest);
    let k = find_argument(n.children, 0)->0;
    let args = Seq::<(Seq<char>, Seq<char>)>::empty().push((name, joined(rest, " "@)));
    assert(args =~= seq![(name, joined(rest, " "@))]);
    assert(resolve(n, toks, at, Seq::empty()) == resolve(
        n.children[k],
        toks,
        toks.len() as int,
        args,
    ));
}

/// A line whose first word no child of the root matches is an unknown
/// command.
pub proof fn lemma_unregistered_is_unknown<H>(root: NodeView<H>, line: Seq<char>)
    requires
        words(line).len() > 0,
        find_literal(root.children, words(line)[0], 0) is None,
        find_argument(root.children, 0) is None,
    ensures
        resolve_line(root, line) == Err::<InvocationView<H>, DispatchErrorView>(
            DispatchErrorView::Unknown(unknown_message(words(line)[0])),
        ),
{
}

/// A line without a word, given to a root without a handler, is an unknown
/// command.
pub proof fn lemma_empty_line_is_unknown<H>(root: NodeView<H>, line: Seq<char>)
    requires
        words(line).len() == 0,
        root.handler is None,
    ensures
        resolve_line(root, line) == Err::<InvocationView<H>, DispatchErrorView>(
            DispatchErrorView::Unknown(unknown_message(Seq::empty())),
        ),
{
}

/// The node below `node` that the child numbers `idx[i..]` lead to, one
/// child further with each number; none if a number names no child.
pub open spec fn child_at<H>(node: NodeView<H>, idx: Seq<int>, i: int) -> Option<NodeView<H>>
    decreases idx.len() - i,
{
    if i < 0 || i >= idx.len() {
        Some(node)
    } else if 0 <= idx[i] < node.children.len() {
        child_at(node.children[idx[i]], idx, i + 1)
    } else {
        None
    }
}

/// The tokens of the literals on the way that `idx[i..]` leads below `node`;
/// none if the way leaves the tree or passes an argument.
pub open spec fn tokens_along<H>(node: NodeView<H>, idx: Seq<int>, i: int) -> Option<
    Seq<Seq<char>>,
>
    decreases idx.len() - i,
{
    if i < 0 || i >= idx.len() {
        Some(Seq::empty())
    } else if 0 <= idx[i] < node.children.len() {
        match (node.children[idx[i]].matcher, tokens_along(node.children[idx[i]], idx, i + 1)) {
            (MatcherView::Literal(t), Some(rest)) => Some(seq![t] + rest),
            _ => None,
        }
    } else {
        None
    }
}

/// To go down from the second word on is to go down the words without the
/// first.
pub proof fn lemma_descent_shift<H>(node: NodeView<H>, path: Seq<Seq<char>>, i: int)
    requires
        0 <= i,
        path.len() > 0,
    ensures
        literal_descent(node, path, i + 1) == literal_descent(node, path.drop_first(), i),
    decreases path.len() - i,
{
    let rest = path.drop_first();
    if i + 1 < path.len() {
        assert(rest[i] == path[i + 1]);
        match find_literal(node.children, path[i + 1], 0) {
            Some(k) => {
                lemma_descent_shift(node.children[k], path, i + 1);
            },
            None => {},
        }
    }
}

/// In a valid grammar, the literals on a registered way are words, and the
/// walk over their tokens ends where the way ends.
pub proof fn lemma_registered_way<H>(node: NodeView<H>, idx: Seq<int>, i: int)
    requires
        node.wf(),
        0 <= i <= idx.len(),
        tokens_along(node, idx, i) is Some,
    ensures
        child_at(node, idx, i) is Some,
        forall|k: int|
            0 <= k < tokens_along(node, idx, i)->0.len() ==> is_word(
                #[trigger] tokens_along(node, idx, i)->0[k],
            ),
        literal_descent(node, tokens_along(node, idx, i)->0, 0) == child_at(node, idx, i),
    decreases idx.len() - i,
{
    if i < idx.len() {
        let child = node.children[idx[i]];
        let toks = tokens_along(node, idx, i)->0;
        let rest = tokens_along(child, idx, i + 1)->0;
        let t = child.matcher->Literal_0;
        assert(toks == seq![t] + rest);
        assert(child.matcher.is_child_matcher() && child.wf());
        lemma_registered_way(child, idx, i + 1);
        lemma_find_literal_unique(node.children, t, idx[i]);
        assert(toks[0] == t);
        assert(toks.drop_first() =~= rest);
        lemma_descent_shift(child, toks, 0);
        assert forall|k: int| 0 <= k < toks.len() implies is_word(#[trigger] toks[k]) by {
            if k > 0 {
                assert(toks[k] == rest[k - 1]);
            }
        }
    }
}

/// In a valid grammar, a line that is exactly the tokens of the literals on
/// a registered way, joined by single spaces, leads to the handler at the end
/// of that way, with nothing bound.
pub proof fn lemma_registered_literal_path<H>(root: NodeView<H>, idx: Seq<int>, h: H)
    requires
        root.wf(),
        tokens_along(root, idx, 0) is Some,
        child_at(root, idx, 0) matches Some(n) && n.handler == Some(h),
    ensures
        resolve_line(root, joined(tokens_along(root, idx, 0)->0, " "@)) == Ok::<
            InvocationView<H>,
            DispatchErrorView,
        >(InvocationView { handler: h, args: Seq::empty() }),
{
    lemma_registered_way(root, idx, 0);
    lemma_literal_path_reaches_handler(root, tokens_along(root, idx, 0)->0, h);
}

} // verus!
