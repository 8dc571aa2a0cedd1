//! The command grammar: a tree of literal and argument nodes, and the walk
//! that matches a command line against it.

use crate::command_source::{CommandSource, CommandSourceView};
use crate::text::{
    chars_of, is_space, is_whitespace, is_word, join, joined, split_whitespace, strings_view,
    words,
};
use vstd::prelude::*;

verus! {

/// How much of the line an argument takes.
#[derive(Debug, Clone, Copy, PartialEq, Eq, Structural)]
pub enum ArgKind {
    /// One word.
    Word,
    /// All the words that are left, joined by single spaces.
    Greedy,
}

/// What a node matches, as a mathematical value.
pub enum MatcherView {
    Root,
    Literal(Seq<char>),
    Argument { name: Seq<char>, kind: ArgKind },
}

impl MatcherView {
    /// Two siblings clash when a word could be matched by either: two
    /// literals with the same token, or two arguments.
    pub open spec fn clashes(self, other: MatcherView) -> bool {
        ||| (self matches MatcherView::Literal(a) && other matches MatcherView::Literal(b) && a
            == b)
        ||| (self is Argument && other is Argument)
    }

    /// A greedy argument: it takes all the words that are left.
    pub open spec fn is_greedy(self) -> bool {
        self matches MatcherView::Argument { kind: ArgKind::Greedy, .. }
    }

    /// A matcher that can stand below another node: a literal made of one
    /// word, or an argument.
    pub open spec fn is_child_matcher(self) -> bool {
        match self {
            MatcherView::Root => false,
            MatcherView::Literal(t) => is_word(t),
            MatcherView::Argument { .. } => true,
        }
    }
}

/// A grammar node as a mathematical value.
pub struct NodeView<H> {
    pub matcher: MatcherView,
    pub handler: Option<H>,
    pub children: Seq<NodeView<H>>,
}

/// No two of `children` clash.
pub open spec fn unambiguous<H>(children: Seq<NodeView<H>>) -> bool {
    forall|i: int, j: int|
        0 <= i < j < children.len() ==> !(#[trigger] children[i]).matcher.clashes(
            (#[trigger] children[j]).matcher,
        )
}

impl<H> NodeView<H> {
    /// The grammar below this node is valid: no node has two children that
    /// clash, every child is a one-word literal or an argument, and nothing
    /// stands below a greedy argument, which is the last of its branch to
    /// take words.
    pub open spec fn wf(self) -> bool
        decreases self,
    {
        &&& unambiguous(self.children)
        &&& self.matcher.is_greedy() ==> self.children.len() == 0
        &&& forall|i: int|
            0 <= i < self.children.len() ==> {
                &&& (#[trigger] self.children[i]).matcher.is_child_matcher()
                &&& self.children[i].wf()
            }
    }

    /// This node with `h` as its handler.
    pub open spec fn with_handler(self, h: H) -> NodeView<H> {
        NodeView { matcher: self.matcher, handler: Some(h), children: self.children }
    }

    /// This node with `child` as its last child.
    pub open spec fn with_child(self, child: NodeView<H>) -> NodeView<H> {
        NodeView {
            matcher: self.matcher,
            handler: self.handler,
            children: self.children.push(child),
        }
    }

    /// Whether some child of this node clashes with `m`.
    pub open spec fn has_clash(self, m: MatcherView) -> bool {
        exists|i: int| 0 <= i < self.children.len() && (#[trigger] self.children[i]).matcher.clashes(m)
    }

    /// Why a node that matches `m` cannot be added below this node, if it
    /// cannot: this node is a greedy argument, or a child of it clashes with
    /// `m`.
    pub open spec fn refusal(self, m: MatcherView) -> Option<GrammarError> {
        if self.matcher.is_greedy() {
            Some(GrammarError::AfterGreedy)
        } else if self.has_clash(m) {
            Some(clash_error(m))
        } else {
            None
        }
    }
}

/// The first index at or after `from` of a literal child with token `tok`.
pub open spec fn find_literal<H>(children: Seq<NodeView<H>>, tok: Seq<char>, from: int) -> Option<
    int,
>
    decreases children.len() - from,
{
    if from < 0 || from >= children.len() {
        None
    } else if children[from].matcher == MatcherView::Literal(tok) {
        Some(from)
    } else {
        find_literal(children, tok, from + 1)
    }
}

/// The first index at or after `from` of an argument child.
pub open spec fn find_argument<H>(children: Seq<NodeView<H>>, from: int) -> Option<int>
    decreases children.len() - from,
{
    if from < 0 || from >= children.len() {
        None
    } else if children[from].matcher is Argument {
        Some(from)
    } else {
        find_argument(children, from + 1)
    }
}

/// The values bound to argument names by one walk, in the order bound.
pub type ArgsView = Seq<(Seq<char>, Seq<char>)>;

/// The views of bound arguments.
pub open spec fn args_view(args: Seq<(String, String)>) -> ArgsView {
    args.map_values(|p: (String, String)| (p.0@, p.1@))
}

/// The value last bound to `name`, if any.
pub open spec fn lookup(args: ArgsView, name: Seq<char>) -> Option<Seq<char>>
    decreases args.len(),
{
    if args.len() == 0 {
        None
    } else if args.last().0 == name {
        Some(args.last().1)
    } else {
        lookup(args.drop_last(), name)
    }
}

/// A successful walk as a mathematical value.
pub struct InvocationView<H> {
    pub handler: H,
    pub args: ArgsView,
}

/// Why a walk failed, as a mathematical value.
pub enum DispatchErrorView {
    Unknown(Seq<char>),
    Syntax(Seq<char>),
}

/// The message for a line whose first word starts no command.
pub open spec fn unknown_message(tok: Seq<char>) -> Seq<char> {
    "Unknown command: "@ + tok
}

/// The message for a line that ends at a node without a handler.
pub open spec fn incomplete_message(tok: Seq<char>) -> Seq<char> {
    "Incomplete command after: "@ + tok
}

/// The message for a word that no child of the node reached matches.
pub open spec fn unexpected_message(tok: Seq<char>) -> Seq<char> {
    "Unexpected argument: "@ + tok
}

/// The walk: from `node`, with the words `toks[i..]` left and `args` bound so
/// far. A literal child is preferred to an argument child; a greedy argument
/// takes all the words that are left.
pub open spec fn resolve<H>(node: NodeView<H>, toks: Seq<Seq<char>>, i: int, args: ArgsView)
    -> Result<InvocationView<H>, DispatchErrorView>
    decreases toks.len() - i,
{
    if i < 0 || i >= toks.len() {
        match node.handler {
            Some(h) => Ok(InvocationView { handler: h, args }),
            None => if i <= 0 {
                Err(DispatchErrorView::Unknown(unknown_message(Seq::empty())))
            } else {
                Err(DispatchErrorView::Syntax(incomplete_message(toks[i - 1])))
            },
        }
    } else {
        match find_literal(node.children, toks[i], 0) {
            Some(k) => resolve(node.children[k], toks, i + 1, args),
            None => match find_argument(node.children, 0) {
                Some(k) => {
                    let child = node.children[k];
                    match child.matcher {
                        MatcherView::Argument { name, kind: ArgKind::Greedy } => resolve(
                            child,
                            toks,
                            toks.len() as int,
                            args.push((name, joined(toks.skip(i), " "@))),
                        ),
                        MatcherView::Argument { name, kind: ArgKind::Word } => resolve(
                            child,
                            toks,
                            i + 1,
                            args.push((name, toks[i])),
                        ),
                        _ => resolve(child, toks, i + 1, args),
                    }
                },
                None => if i == 0 {
                    Err(DispatchErrorView::Unknown(unknown_message(toks[0])))
                } else {
                    Err(DispatchErrorView::Syntax(unexpected_message(toks[i])))
                },
            },
        }
    }
}

/// What the grammar under `root` makes of `line`: the handler reached and the
/// arguments bound on the way, or the reason why no handler was reached.
pub open spec fn resolve_line<H>(root: NodeView<H>, line: Seq<char>) -> Result<
    InvocationView<H>,
    DispatchErrorView,
> {
    resolve(root, words(line), 0, Seq::empty())
}

/// Why a grammar could not be built.
#[derive(Debug, Clone, Copy, PartialEq, Eq, Structural)]
pub enum GrammarError {
    /// A literal token must be one word: not empty, no white space.
    InvalidLiteral,
    /// The node already has a literal child with this token.
    DuplicateLiteral,
    /// The node already has an argument child.
    AmbiguousArgument,
    /// The node is a greedy argument: it takes the rest of the line, so
    /// nothing can follow it.
    AfterGreedy,
}

/// The error for a node that clashes with a sibling: a duplicate if it is a
/// literal, an ambiguity if it is an argument.
pub open spec fn clash_error(m: MatcherView) -> GrammarError {
    if m is Literal {
        GrammarError::DuplicateLiteral
    } else {
        GrammarError::AmbiguousArgument
    }
}

/// Why no handler was reached for a line.
#[derive(Debug, Clone)]
pub enum DispatchError {
    /// No path of the grammar starts with the line's first word.
    Unknown(String),
    /// A path was entered, but the words do not lead to a handler on it.
    Syntax(String),
}

impl View for DispatchError {
    type V = DispatchErrorView;

    open spec fn view(&self) -> DispatchErrorView {
        match self {
            DispatchError::Unknown(m) => DispatchErrorView::Unknown(m@),
            DispatchError::Syntax(m) => DispatchErrorView::Syntax(m@),
        }
    }
}

impl DispatchErrorView {
    /// The text to show to the user.
    pub open spec fn message(self) -> Seq<char> {
        match self {
            DispatchErrorView::Unknown(m) => m,
            DispatchErrorView::Syntax(m) => m,
        }
    }
}

impl DispatchError {
    /// The text to show to the user.
    pub fn message(&self) -> (m: &String)
        ensures
            m@ == self@.message(),
    {
        match self {
            DispatchError::Unknown(m) => m,
            DispatchError::Syntax(m) => m,
        }
    }
}

/// The handler that a line reached, and the arguments bound on the way.
#[derive(Debug)]
pub struct Invocation<H> {
    pub handler: H,
    pub args: Vec<(String, String)>,
}

impl<H> View for Invocation<H> {
    type V = InvocationView<H>;

    open spec fn view(&self) -> InvocationView<H> {
        InvocationView { handler: self.handler, args: args_view(self.args@) }
    }
}

impl<H> Invocation<H> {
    /// The value last bound to `name`, if any.
    pub fn get_string(&self, name: &str) -> (r: Option<String>)
        ensures
            crate::model::opt_text(r) == lookup(self@.args, name@),
    {
        let wanted = name.to_owned();
        let mut i: usize = self.args.len();
        assert(args_view(self.args@).take(i as int) =~= args_view(self.args@));
        while i > 0
            invariant
                i <= self.args@.len(),
                wanted@ == name@,
                lookup(args_view(self.args@), name@) == lookup(
                    args_view(self.args@).take(i as int),
                    name@,
                ),
            decreases i,
        {
            let ghost cur = args_view(self.args@).take(i as int);
            assert(cur.drop_last() =~= args_view(self.args@).take(i as int - 1));
            assert(cur.last() == (self.args@[i as int - 1].0@, self.args@[i as int - 1].1@));
            if self.args[i - 1].0 == wanted {
                return Some(self.args[i - 1].1.clone());
            }
            i -= 1;
        }
        None
    }
}

/// The view of what `parse` returns.
pub open spec fn parsed_view<H>(r: Result<Invocation<H>, DispatchError>) -> Result<
    InvocationView<H>,
    DispatchErrorView,
> {
    match r {
        Ok(inv) => Ok(inv@),
        Err(e) => Err(e@),
    }
}

/// What a node matches.
#[derive(Debug, Clone)]
pub enum Matcher {
    Literal(String),
    Argument { name: String, kind: ArgKind },
}

impl View for Matcher {
    type V = MatcherView;

    open spec fn view(&self) -> MatcherView {
        match self {
            Matcher::Literal(s) => MatcherView::Literal(s@),
            Matcher::Argument { name, kind } => MatcherView::Argument { name: name@, kind: *kind },
        }
    }
}

/// A node of the grammar tree: what it matches, the handler bound to it, if
/// any, and the nodes that may follow it.
#[derive(Debug)]
pub struct Node<H> {
    matcher: Matcher,
    handler: Option<H>,
    children: Vec<Node<H>>,
}

impl<H> Node<H> {
    /// The tree below this node as a mathematical value.
    pub closed spec fn model(self) -> NodeView<H>
        decreases self,
    {
        NodeView {
            matcher: self.matcher@,
            handler: self.handler,
            children: Seq::new(
                self.children@.len(),
                |i: int|
                    if 0 <= i < self.children@.len() {
                        self.children[i].model()
                    } else {
                        arbitrary()
                    },
            ),
        }
    }
}

impl<H> View for Node<H> {
    type V = NodeView<H>;

    closed spec fn view(&self) -> NodeView<H> {
        self.model()
    }
}

/// The views of a sequence of nodes, in order.
pub open spec fn nodes_view<H>(nodes: Seq<Node<H>>) -> Seq<NodeView<H>> {
    nodes.map_values(|n: Node<H>| n@)
}

/// Whether `s` is one word.
pub fn is_one_word(s: &str) -> (b: bool)
    ensures
        b == is_word(s@),
{
    let v = chars_of(s);
    if v.len() == 0 {
        return false;
    }
    let mut i: usize = 0;
    while i < v.len()
        invariant
            i <= v@.len(),
            v@ == s@,
            forall|k: int| 0 <= k < i ==> !is_whitespace(#[trigger] v@[k]),
        decreases v@.len() - i,
    {
        if is_space(v[i]) {
            assert(is_whitespace(s@[i as int]));
            return false;
        }
        i += 1;
    }
    true
}

impl<H> Node<H> {
    #[verifier::type_invariant]
    spec fn inv(self) -> bool {
        self@.wf() && self@.matcher.is_child_matcher()
    }
}

impl<H: Copy> Node<H> {
    /// The view of the matcher is the matcher of the view.
    proof fn lemma_matcher(&self)
        ensures
            self@.matcher == self.matcher@,
    {
    }

    /// How the view is made of the fields.
    proof fn lemma_view(&self)
        ensures
            self@.matcher == self.matcher@,
            self@.handler == self.handler,
            self@.children.len() == self.children@.len(),
            forall|i: int|
                0 <= i < self.children@.len() ==> #[trigger] self@.children[i]
                    == self.children@[i]@,
            self@.children == nodes_view(self.children@),
    {
        assert(self@.children =~= nodes_view(self.children@));
    }

    /// A node that matches the one word `token` exactly.
    pub fn literal(token: &str) -> (r: Result<Self, GrammarError>)
        ensures
            match r {
                Ok(n) => is_word(token@) && n@.wf() && n@ == (NodeView::<H> {
                    matcher: MatcherView::Literal(token@),
                    handler: None,
                    children: Seq::empty(),
                }),
                Err(e) => !is_word(token@) && e == GrammarError::InvalidLiteral,
            },
    {
        if !is_one_word(token) {
            return Err(GrammarError::InvalidLiteral);
        }
        let ghost v = NodeView::<H> {
            matcher: MatcherView::Literal(token@),
            handler: None,
            children: Seq::empty(),
        };
        let matcher = Matcher::Literal(token.to_owned());
        let children: Vec<Node<H>> = Vec::new();
        proof {
            assert(v.wf());
        }
        let n = Node { matcher, handler: None, children };
        proof {
            n.lemma_view();
            assert(n@.children =~= v.children);
        }
        Ok(n)
    }

    /// A node that binds `name` to one word, or, if `kind` is greedy, to all
    /// the words that are left.
    pub fn argument(name: &str, kind: ArgKind) -> (n: Self)
        ensures
            n@.wf(),
            n@ == (NodeView::<H> {
                matcher: MatcherView::Argument { name: name@, kind },
                handler: None,
                children: Seq::empty(),
            }),
    {
        let ghost v = NodeView::<H> {
            matcher: MatcherView::Argument { name: name@, kind },
            handler: None,
            children: Seq::empty(),
        };
        let matcher = Matcher::Argument { name: name.to_owned(), kind };
        let children: Vec<Node<H>> = Vec::new();
        proof {
            assert(v.wf());
        }
        let n = Node { matcher, handler: None, children };
        proof {
            n.lemma_view();
            assert(n@.children =~= v.children);
        }
        n
    }

    /// Binds `h` to this node: a line that ends here runs it.
    pub fn executes(self, h: H) -> (n: Self)
        ensures
            n@ == self@.with_handler(h),
            n@.wf(),
    {
        proof {
            use_type_invariant(&self);
            self.lemma_view();
        }
        let Node { matcher, handler: _, children } = self;
        let n = Node { matcher, handler: Some(h), children };
        proof {
            n.lemma_view();
            assert(n@.children =~= self@.children);
        }
        n
    }

    /// Adds `child` below this node. Refused, and nothing is added, if this
    /// node is a greedy argument, which must be the last of its branch, or
    /// if a child of this node already matches what `child` matches: a
    /// literal with the same token, or another argument.
    pub fn followed_by(self, child: Node<H>) -> (r: Result<Self, GrammarError>)
        ensures
            match r {
                Ok(n) => self@.refusal(child@.matcher) is None && n@ == self@.with_child(child@)
                    && n@.wf(),
                Err(e) => self@.refusal(child@.matcher) == Some(e),
            },
    {
        proof {
            use_type_invariant(&self);
            use_type_invariant(&child);
            self.lemma_view();
            child.lemma_view();
        }
        match &self.matcher {
            Matcher::Argument { name: _, kind: ArgKind::Greedy } => {
                return Err(GrammarError::AfterGreedy);
            },
            _ => {},
        }
        match find_clash(&self.children, &child.matcher) {
            Some(e) => Err(e),
            None => {
                let ghost before = self@;
                let ghost cv = child@;
                proof {
                    lemma_with_child_wf(before, cv);
                }
                let Node { matcher, handler, mut children } = self;
                children.push(child);
                proof {
                    let nv = (Node { matcher, handler, children }).model();
                    assert(nv.children =~= before.children.push(cv));
                    assert(nv == before.with_child(cv));
                }
                let n = Node { matcher, handler, children };
                proof {
                    n.lemma_view();
                    assert(n@.children =~= before.children.push(cv));
                }
                Ok(n)
            },
        }
    }
}

/// Adding a valid child that clashes with none keeps a grammar valid.
pub proof fn lemma_with_child_wf<H>(n: NodeView<H>, child: NodeView<H>)
    requires
        n.wf(),
        child.wf(),
        child.matcher.is_child_matcher(),
        n.refusal(child.matcher) is None,
    ensures
        n.with_child(child).wf(),
{
    let m = n.with_child(child);
    assert forall|i: int, j: int| 0 <= i < j < m.children.len() implies !(#[trigger] m.children[i])
        .matcher.clashes((#[trigger] m.children[j]).matcher) by {
        if j < n.children.len() {
            assert(m.children[i] == n.children[i]);
            assert(m.children[j] == n.children[j]);
        } else {
            assert(m.children[i] == n.children[i]);
        }
    }
    assert forall|i: int| 0 <= i < m.children.len() implies {
        &&& (#[trigger] m.children[i]).matcher.is_child_matcher()
        &&& m.children[i].wf()
    } by {
        if i < n.children.len() {
            assert(m.children[i] == n.children[i]);
        }
    }
}

/// The first literal node among `children` whose token is `tok`.
fn find_literal_child<H: Copy>(children: &Vec<Node<H>>, tok: &String) -> (r: Option<usize>)
    ensures
        match r {
            Some(k) => k < children@.len() && find_literal(nodes_view(children@), tok@, 0) == Some(
                k as int,
            ),
            None => find_literal(nodes_view(children@), tok@, 0) is None,
        },
{
    let ghost views = nodes_view(children@);
    let mut k: usize = 0;
    while k < children.len()
        invariant
            k <= children@.len(),
            views == nodes_view(children@),
            find_literal(views, tok@, 0) == find_literal(views, tok@, k as int),
        decreases children@.len() - k,
    {
        proof {
            children[k as int].lemma_matcher();
        }
        match &children[k].matcher {
            Matcher::Literal(t) => {
                if *t == *tok {
                    return Some(k);
                }
            },
            _ => {},
        }
        k += 1;
    }
    None
}

/// The first argument node among `children`, with its name and kind.
fn find_argument_child<H: Copy>(children: &Vec<Node<H>>) -> (r: Option<(usize, &String, ArgKind)>)
    ensures
        match r {
            Some((k, name, kind)) => k < children@.len() && find_argument(nodes_view(children@), 0)
                == Some(k as int) && children@[k as int]@.matcher == (MatcherView::Argument {
                name: name@,
                kind,
            }),
            None => find_argument(nodes_view(children@), 0) is None,
        },
{
    let ghost views = nodes_view(children@);
    let mut k: usize = 0;
    while k < children.len()
        invariant
            k <= children@.len(),
            views == nodes_view(children@),
            find_argument(views, 0) == find_argument(views, k as int),
        decreases children@.len() - k,
    {
        proof {
            children[k as int].lemma_matcher();
        }
        match &children[k].matcher {
            Matcher::Argument { name, kind } => {
                return Some((k, name, *kind));
            },
            _ => {},
        }
        k += 1;
    }
    None
}

/// The error of `children`, if one of them clashes with `m`.
fn find_clash<H: Copy>(children: &Vec<Node<H>>, m: &Matcher) -> (r: Option<GrammarError>)
    ensures
        r is Some == (exists|i: int|
            0 <= i < children@.len() && (#[trigger] nodes_view(children@)[i]).matcher.clashes(m@)),
        r matches Some(e) ==> e == clash_error(m@),
{
    let ghost views = nodes_view(children@);
    let mut i: usize = 0;
    while i < children.len()
        invariant
            i <= children@.len(),
            views == nodes_view(children@),
            forall|k: int| 0 <= k < i ==> !(#[trigger] views[k]).matcher.clashes(m@),
        decreases children@.len() - i,
    {
        proof {
            children[i as int].lemma_matcher();
        }
        match (&children[i].matcher, m) {
            (Matcher::Literal(a), Matcher::Literal(b)) => {
                if *a == *b {
                    assert(views[i as int].matcher.clashes(m@));
                    return Some(GrammarError::DuplicateLiteral);
                }
            },
            (Matcher::Argument { .. }, Matcher::Argument { .. }) => {
                assert(views[i as int].matcher.clashes(m@));
                return Some(GrammarError::AmbiguousArgument);
            },
            _ => {},
        }
        i += 1;
    }
    None
}

/// `prefix` followed by `tok`.
fn message_of(prefix: &str, tok: &str) -> (m: String)
    ensures
        m@ == prefix@ + tok@,
{
    let mut m = prefix.to_owned();
    m.append(tok);
    m
}

/// What runs the handlers that the grammar names. `outcome` says what a
/// handler does: the count it returns and the source it leaves behind.
pub trait CommandExecutor<H> {
    spec fn outcome(&self, inv: InvocationView<H>, before: CommandSourceView) -> (
        i32,
        CommandSourceView,
    );

    fn run(&self, inv: &Invocation<H>, source: &mut CommandSource) -> (count: i32)
        ensures
            (count, final(source)@) == self.outcome(inv@, old(source)@),
    ;
}

/// The grammar of all registered commands, below one root.
#[derive(Debug)]
pub struct CommandDispatcher<H> {
    children: Vec<Node<H>>,
}

impl<H> View for CommandDispatcher<H> {
    type V = NodeView<H>;

    closed spec fn view(&self) -> NodeView<H> {
        NodeView { matcher: MatcherView::Root, handler: None, children: nodes_view(self.children@) }
    }
}

impl<H> CommandDispatcher<H> {
    #[verifier::type_invariant]
    spec fn inv(self) -> bool {
        self@.wf()
    }
}

impl<H: Copy> CommandDispatcher<H> {
    /// A grammar with no command.
    pub fn new() -> (d: Self)
        ensures
            d@ == (NodeView::<H> {
                matcher: MatcherView::Root,
                handler: None,
                children: Seq::empty(),
            }),
            d@.wf(),
    {
        let children: Vec<Node<H>> = Vec::new();
        proof {
            assert(nodes_view(children@) =~= Seq::empty());
        }
        CommandDispatcher { children }
    }

    /// Adds the command `subtree` below the root. Refused, and nothing
    /// changes, if a registered command already matches what `subtree`
    /// matches: a literal with the same token, or another argument.
    pub fn register(&mut self, subtree: Node<H>) -> (r: Result<(), GrammarError>)
        ensures
            final(self)@.wf(),
            match r {
                Ok(()) => !old(self)@.has_clash(subtree@.matcher)
                    && final(self)@ == old(self)@.with_child(subtree@),
                Err(e) => old(self)@.has_clash(subtree@.matcher) && final(self)@ == old(self)@
                    && e == clash_error(subtree@.matcher),
            },
    {
        proof {
            use_type_invariant(&*self);
            use_type_invariant(&subtree);
        }
        proof {
            subtree.lemma_matcher();
        }
        match find_clash(&self.children, &subtree.matcher) {
            Some(e) => Err(e),
            None => {
                let ghost before = self@;
                let ghost sv = subtree@;
                let mut taken = CommandDispatcher::new();
                std::mem::swap(self, &mut taken);
                let CommandDispatcher { mut children } = taken;
                proof {
                    lemma_with_child_wf(before, sv);
                    assert(nodes_view(children@.push(subtree)) =~= before.children.push(sv));
                }
                children.push(subtree);
                *self = CommandDispatcher { children };
                Ok(())
            },
        }
    }

    /// Matches `line` against the grammar: splits it at white space and
    /// walks down from the root, one word at a time.
    pub fn parse(&self, line: &str) -> (res: Result<Invocation<H>, DispatchError>)
        ensures
            parsed_view(res) == resolve_line(self@, line@),
    {
        let toks = split_whitespace(line);
        let ghost tv = strings_view(toks@);
        let mut cur: &Vec<Node<H>> = &self.children;
        let mut cur_handler: Option<H> = None;
        let ghost mut node: NodeView<H> = self@;
        let mut args: Vec<(String, String)> = Vec::new();
        let mut i: usize = 0;
        proof {
            assert(args_view(args@) =~= Seq::empty());
        }
        loop
            invariant
                i <= toks@.len(),
                tv == strings_view(toks@),
                tv == words(line@),
                node.children == nodes_view(cur@),
                node.handler == cur_handler,
                resolve(node, tv, i as int, args_view(args@)) == resolve_line(self@, line@),
            decreases toks@.len() - i,
        {
            if i >= toks.len() {
                return match cur_handler {
                    Some(h) => Ok(Invocation { handler: h, args }),
                    None => if i == 0 {
                        proof {
                            reveal_strlit("");
                            assert(""@ =~= Seq::<char>::empty());
                        }
                        Err(DispatchError::Unknown(message_of("Unknown command: ", "")))
                    } else {
                        Err(
                            DispatchError::Syntax(
                                message_of("Incomplete command after: ", toks[i - 1].as_str()),
                            ),
                        )
                    },
                };
            }
            let tok = &toks[i];
            match find_literal_child(cur, tok) {
                Some(k) => {
                    let child = &cur[k];
                    proof {
                        child.lemma_view();
                        node = child@;
                    }
                    cur = &child.children;
                    cur_handler = child.handler;
                    i += 1;
                },
                None => match find_argument_child(cur) {
                    Some((k, name, kind)) => {
                        let child = &cur[k];
                        let ghost before = args_view(args@);
                        match kind {
                            ArgKind::Greedy => {
                                let value = join(&toks, i, " ");
                                args.push((name.clone(), value));
                                proof {
                                    assert(args_view(args@) =~= before.push(
                                        (name@, joined(tv.skip(i as int), " "@)),
                                    ));
                                }
                                i = toks.len();
                            },
                            ArgKind::Word => {
                                args.push((name.clone(), tok.clone()));
                                proof {
                                    assert(args_view(args@) =~= before.push((name@, tv[i as int])));
                                }
                                i += 1;
                            },
                        }
                        proof {
                            child.lemma_view();
                            node = child@;
                        }
                        cur = &child.children;
                        cur_handler = child.handler;
                    },
                    None => {
                        return if i == 0 {
                            Err(DispatchError::Unknown(message_of("Unknown command: ", tok.as_str())))
                        } else {
                            Err(
                                DispatchError::Syntax(
                                    message_of("Unexpected argument: ", tok.as_str()),
                                ),
                            )
                        };
                    },
                },
            }
        }
    }

    /// Matches `line` against the grammar and, if it leads to a handler,
    /// has `executor` run that handler once on `source`. A line that leads to
    /// none runs nothing and leaves `source` as it was.
    pub fn execute<E: CommandExecutor<H>>(
        &self,
        line: &str,
        executor: &E,
        source: &mut CommandSource,
    ) -> (res: Result<i32, DispatchError>)
        ensures
            match resolve_line(self@, line@) {
                Ok(inv) => res == Ok::<i32, DispatchError>(executor.outcome(inv, old(source)@).0)
                    && final(source)@ == executor.outcome(inv, old(source)@).1,
                Err(e) => res matches Err(x) && x@ == e && final(source)@ == old(source)@,
            },
    {
        match self.parse(line) {
            Ok(inv) => Ok(executor.run(&inv, source)),
            Err(e) => Err(e),
        }
    }
}

} // verus!
