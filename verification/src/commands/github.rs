//! `github`: looks up users and repositories and searches repositories.
//! Here stand the grammar of the command, the requests it makes and the
//! replies it writes; the calls over the network are made elsewhere.

use crate::command_registry::{BotCommand, Handler};
use crate::dispatcher::{
    args_view, lookup, ArgKind, ArgsView, CommandDispatcher, GrammarError, Invocation,
    InvocationView, MatcherView, Node, NodeView,
};
use crate::model::opt_text;
use crate::outside::{
    append_query_pair, join_url, parse_url, url_joined, url_parsed, url_text, url_with_pair,
};
use crate::proxy::{check_fits, fits};
use crate::text::{
    chars_of, decimal, i64_to_string, is_word, join, joined, parse_usize, parsed_usize,
    split_whitespace, starts_with, string_of, strings_view, trim_bounds, trimmed, u64_to_string,
    words,
};
use url::Url;
use vstd::prelude::*;

verus! {

/// A literal node without handler and children.
pub open spec fn literal_node(token: Seq<char>) -> NodeView<Handler> {
    NodeView { matcher: MatcherView::Literal(token), handler: None, children: Seq::empty() }
}

/// The subcommand `token <arg...>`: a literal followed by a greedy argument
/// that runs `h`.
pub open spec fn subcommand(token: Seq<char>, arg: Seq<char>, h: Handler) -> NodeView<Handler> {
    literal_node(token).with_child(
        NodeView {
            matcher: MatcherView::Argument { name: arg, kind: ArgKind::Greedy },
            handler: Some(h),
            children: Seq::empty(),
        },
    )
}

/// What is known of how to reach the GitHub API.
#[derive(Debug, Clone)]
pub struct GitHubApi {
    token: Option<String>,
}

impl GitHubApi {
    /// A token without the white space around it; none if nothing is left.
    pub open spec fn normalized_token(token: Option<Seq<char>>) -> Option<Seq<char>> {
        match token {
            Some(t) => if trimmed(t).len() == 0 {
                None
            } else {
                Some(trimmed(t))
            },
            None => None,
        }
    }

    /// The token that requests carry, if any.
    pub closed spec fn spec_token(&self) -> Option<Seq<char>> {
        opt_text(self.token)
    }

    pub fn new(token: Option<String>) -> (api: Self)
        ensures
            api.spec_token() == Self::normalized_token(opt_text(token)),
    {
        let token = match token {
            Some(t) => {
                let v = chars_of(t.as_str());
                let (from, to) = trim_bounds(v.as_slice());
                if from == to {
                    None
                } else {
                    Some(string_of(v.as_slice(), from, to))
                }
            },
            None => None,
        };
        Self { token }
    }

    /// The token that requests carry, if any.
    pub fn token(&self) -> (t: Option<&String>)
        ensures
            match t {
                Some(s) => self.spec_token() == Some(s@),
                None => self.spec_token() is None,
            },
    {
        self.token.as_ref()
    }
}

/// A request that a subcommand of `github` makes of the API, with the text
/// that was given to it.
#[derive(Debug, Clone)]
pub enum GithubCall {
    User(String),
    Repo(String),
    Search(String),
}

/// A request as a mathematical value.
pub enum GithubCallView {
    User(Seq<char>),
    Repo(Seq<char>),
    Search(Seq<char>),
}

impl View for GithubCall {
    type V = GithubCallView;

    open spec fn view(&self) -> GithubCallView {
        match self {
            GithubCall::User(s) => GithubCallView::User(s@),
            GithubCall::Repo(s) => GithubCallView::Repo(s@),
            GithubCall::Search(s) => GithubCallView::Search(s@),
        }
    }
}

/// The view of an optional request.
pub open spec fn opt_call(c: Option<GithubCall>) -> Option<GithubCallView> {
    match c {
        Some(c) => Some(c@),
        None => None,
    }
}

/// The text bound to `name`, or the empty text.
pub open spec fn bound_or_empty(args: ArgsView, name: Seq<char>) -> Seq<char> {
    match lookup(args, name) {
        Some(v) => v,
        None => Seq::empty(),
    }
}

/// The request that the invocation `inv` makes of the API, if it makes one.
pub open spec fn call_of(inv: InvocationView<Handler>) -> Option<GithubCallView> {
    match inv.handler {
        Handler::GithubUser => Some(GithubCallView::User(bound_or_empty(inv.args, "username"@))),
        Handler::GithubRepo => Some(GithubCallView::Repo(bound_or_empty(inv.args, "repo"@))),
        Handler::GithubSearch => Some(GithubCallView::Search(bound_or_empty(inv.args, "query"@))),
        _ => None,
    }
}

/// The command `github`.
#[derive(Debug, Clone)]
pub struct GitHubCommand {
    api: GitHubApi,
}

/// The usage text of `github`.
pub open spec fn github_usage() -> Seq<char> {
    "用法：\n`/github user <username>`     # 查询用户信息\n`/github repo <owner>/<repo>` # 查询仓库信息\n`/github search <keyword> [--top=<num>] [--lang=<lang>] [--sort=stars|updated] [--order=desc|asc]` - 搜索仓库\n示例：\n`/github user GitHub`\n`/github repo Chiloven945/lukosbot2`\n`/github search lukosbot --top=5 --lang=java --sort=stars --order=desc`\n"@
}

impl GitHubCommand {
    /// The token that the requests of the command carry, if any.
    pub closed spec fn spec_token(&self) -> Option<Seq<char>> {
        self.api.spec_token()
    }

    /// The grammar of `github`: the literal alone shows the usage; `user`,
    /// `repo` and `search` each take the rest of the line.
    pub open spec fn spec_subtree() -> NodeView<Handler> {
        literal_node("github"@).with_child(
            subcommand("user"@, "username"@, Handler::GithubUser),
        ).with_child(subcommand("repo"@, "repo"@, Handler::GithubRepo)).with_child(
            subcommand("search"@, "query"@, Handler::GithubSearch),
        ).with_handler(Handler::GithubUsage)
    }

    pub fn new(token: Option<String>) -> (c: Self)
        ensures
            c.spec_token() == GitHubApi::normalized_token(opt_text(token)),
    {
        Self { api: GitHubApi::new(token) }
    }

    /// The usage text of `github`.
    pub fn usage_text() -> (r: &'static str)
        ensures
            r@ == github_usage(),
    {
        "用法：\n`/github user <username>`     # 查询用户信息\n`/github repo <owner>/<repo>` # 查询仓库信息\n`/github search <keyword> [--top=<num>] [--lang=<lang>] [--sort=stars|updated] [--order=desc|asc]` - 搜索仓库\n示例：\n`/github user GitHub`\n`/github repo Chiloven945/lukosbot2`\n`/github search lukosbot --top=5 --lang=java --sort=stars --order=desc`\n"
    }

    /// What is known of how to reach the API.
    pub fn api(&self) -> (a: &GitHubApi)
        ensures
            a.spec_token() == self.spec_token(),
    {
        &self.api
    }

    /// The text bound to `name`, or the empty text.
    fn bound(inv: &Invocation<Handler>, name: &str) -> (r: String)
        ensures
            r@ == bound_or_empty(inv@.args, name@),
    {
        match inv.get_string(name) {
            Some(v) => v,
            None => String::new(),
        }
    }

    /// The request that the invocation `inv` makes of the API, if it makes
    /// one.
    pub fn pending_call(inv: &Invocation<Handler>) -> (c: Option<GithubCall>)
        ensures
            opt_call(c) == call_of(inv@),
    {
        match inv.handler {
            Handler::GithubUser => Some(GithubCall::User(Self::bound(inv, "username"))),
            Handler::GithubRepo => Some(GithubCall::Repo(Self::bound(inv, "repo"))),
            Handler::GithubSearch => Some(GithubCall::Search(Self::bound(inv, "query"))),
            _ => None,
        }
    }

    /// One subcommand of `github`.
    fn subcommand_node(token: &str, arg: &str, h: Handler) -> (r: Result<Node<Handler>, GrammarError>)
        requires
            is_word(token@),
        ensures
            r matches Ok(n) && n@ == subcommand(token@, arg@, h),
    {
        let lit = Node::<Handler>::literal(token)?;
        let arg = Node::<Handler>::argument(arg, ArgKind::Greedy).executes(h);
        lit.followed_by(arg)
    }

    /// The grammar of `github`.
    pub fn subtree() -> (r: Result<Node<Handler>, GrammarError>)
        ensures
            r matches Ok(n) && n@ == Self::spec_subtree(),
    {
        proof {
            lemma_github_words();
        }
        let user = Self::subcommand_node("user", "username", Handler::GithubUser)?;
        let repo = Self::subcommand_node("repo", "repo", Handler::GithubRepo)?;
        let search = Self::subcommand_node("search", "query", Handler::GithubSearch)?;
        let root = Node::<Handler>::literal("github")?;
        let root = root.followed_by(user)?;
        proof {
            let n = root@;
            assert forall|i: int| 0 <= i < n.children.len() implies !(#[trigger] n.children[i])
                .matcher.clashes(repo@.matcher) by {}
        }
        let root = root.followed_by(repo)?;
        proof {
            let n = root@;
            assert forall|i: int| 0 <= i < n.children.len() implies !(#[trigger] n.children[i])
                .matcher.clashes(search@.matcher) by {}
        }
        let root = root.followed_by(search)?;
        Ok(root.executes(Handler::GithubUsage))
    }
}

/// The tokens of the grammar of `github` are words, and no two of the
/// subcommands are the same.
pub proof fn lemma_github_words()
    ensures
        is_word("github"@),
        is_word("user"@),
        is_word("repo"@),
        is_word("search"@),
        "user"@ != "repo"@,
        "user"@ != "search"@,
        "repo"@ != "search"@,
{
    reveal_strlit("github");
    reveal_strlit("user");
    reveal_strlit("repo");
    reveal_strlit("search");
    assert("github"@.len() == 6);
    assert("user"@.len() == 4);
    assert("repo"@.len() == 4);
    assert("search"@.len() == 6);
    assert("user"@[0] == 'u');
    assert("repo"@[0] == 'r');
}

impl BotCommand for GitHubCommand {
    open spec fn spec_name(&self) -> Seq<char> {
        "github"@
    }

    open spec fn spec_description(&self) -> Seq<char> {
        "GitHub 查询工具"@
    }

    open spec fn spec_usage(&self) -> Seq<char> {
        github_usage()
    }

    open spec fn spec_visible(&self) -> bool {
        true
    }

    open spec fn spec_subtree(&self) -> NodeView<Handler> {
        GitHubCommand::spec_subtree()
    }

    fn name(&self) -> &'static str {
        "github"
    }

    fn description(&self) -> &'static str {
        "GitHub 查询工具"
    }

    fn usage(&self) -> &'static str {
        "用法：\n`/github user <username>`     # 查询用户信息\n`/github repo <owner>/<repo>` # 查询仓库信息\n`/github search <keyword> [--top=<num>] [--lang=<lang>] [--sort=stars|updated] [--order=desc|asc]` - 搜索仓库\n示例：\n`/github user GitHub`\n`/github repo Chiloven945/lukosbot2`\n`/github search lukosbot --top=5 --lang=java --sort=stars --order=desc`\n"
    }

    fn visible(&self) -> bool {
        true
    }

    fn register(&self, d: &mut CommandDispatcher<Handler>) -> (r: Result<(), GrammarError>) {
        match GitHubCommand::subtree() {
            Ok(n) => d.register(n),
            Err(e) => Err(e),
        }
    }
}

/// The index of the first `c` in `s`; the length of `s` if there is none.
pub open spec fn index_of(s: Seq<char>, c: char) -> int
    decreases s.len(),
{
    if s.len() == 0 || s[0] == c {
        0
    } else {
        1 + index_of(s.drop_first(), c)
    }
}

/// Where `index_of` points, and what stands before.
pub proof fn lemma_index_of(s: Seq<char>, c: char)
    ensures
        0 <= index_of(s, c) <= s.len(),
        index_of(s, c) < s.len() ==> s[index_of(s, c)] == c,
        forall|i: int| 0 <= i < index_of(s, c) ==> #[trigger] s[i] != c,
    decreases s.len(),
{
    if s.len() == 0 || s[0] == c {
    } else {
        lemma_index_of(s.drop_first(), c);
        assert forall|i: int| 0 <= i < index_of(s, c) implies #[trigger] s[i] != c by {
            if i > 0 {
                assert(s[i] == s.drop_first()[i - 1]);
            }
        }
    }
}

/// The index of the first `c` in `v[from..]`, counted from `from`.
fn find_char(v: &[char], from: usize, c: char) -> (r: usize)
    requires
        from <= v@.len(),
    ensures
        r == index_of(v@.skip(from as int), c),
        from + r <= v@.len(),
{
    let mut i: usize = from;
    assert(v@.skip(from as int).skip(0) =~= v@.skip(from as int));
    while i < v.len() && v[i] != c
        invariant
            from <= i <= v@.len(),
            index_of(v@.skip(from as int), c) == (i - from) + index_of(v@.skip(i as int), c),
        decreases v@.len() - i,
    {
        assert(v@.skip(i as int).drop_first() =~= v@.skip(i as int + 1));
        i += 1;
    }
    i - from
}

/// Whether `s` holds nothing but white space.
pub fn is_blank(s: &str) -> (b: bool)
    ensures
        b == (trimmed(s@).len() == 0),
{
    let v = chars_of(s);
    let (from, to) = trim_bounds(v.as_slice());
    from == to
}

/// `s` without the white space around it.
fn trimmed_part(v: &[char], from: usize, to: usize) -> (r: String)
    requires
        from <= to <= v@.len(),
    ensures
        r@ == trimmed(v@.subrange(from as int, to as int)),
{
    let part = string_of(v, from, to);
    crate::text::trim(part.as_str())
}

/// A user, as the API reports one.
#[derive(Debug, Clone)]
pub struct GhUser {
    pub login: String,
    pub name: Option<String>,
    pub html_url: String,
    pub public_repos: i64,
    pub followers: i64,
    pub following: i64,
}

/// A repository, as the API reports one.
#[derive(Debug, Clone)]
pub struct GhRepo {
    pub full_name: String,
    pub html_url: String,
    pub language: Option<String>,
    pub stargazers_count: i64,
    pub forks_count: i64,
    pub description: Option<String>,
}

/// The text of `o` if it has one that is not blank, else `fallback`.
pub open spec fn shown_or(o: Option<String>, fallback: Seq<char>) -> Seq<char> {
    match o {
        Some(s) => if trimmed(s@).len() > 0 {
            s@
        } else {
            fallback
        },
        None => fallback,
    }
}

/// The text of `o` if it has one that is not blank, else `fallback`.
fn text_or(o: &Option<String>, fallback: &str) -> (r: String)
    ensures
        r@ == shown_or(*o, fallback@),
{
    match o {
        Some(s) => if is_blank(s.as_str()) {
            fallback.to_owned()
        } else {
            s.clone()
        },
        None => fallback.to_owned(),
    }
}

/// The reply that shows the user `u`.
pub open spec fn user_text(u: GhUser) -> Seq<char> {
    "用户: "@ + shown_or(u.name, u.login@) + " ("@ + u.login@ + ")\n主页: "@ + u.html_url@
        + "\n公开仓库: "@ + decimal(u.public_repos as int) + " | 粉丝: "@ + decimal(
        u.followers as int,
    ) + " | 关注: "@ + decimal(u.following as int) + "\n"@
}

/// The reply to `github user`: the user, or the note that the lookup of
/// `username` failed.
pub open spec fn user_reply(result: Result<GhUser, String>, username: Seq<char>) -> Seq<char> {
    match result {
        Ok(u) => user_text(u),
        Err(_) => "找不到用户或请求失败："@ + username,
    }
}

/// The language of `r`, or the word for an unknown one.
pub open spec fn language_of(r: GhRepo) -> Seq<char> {
    match r.language {
        Some(l) => l@,
        None => "未知"@,
    }
}

/// The reply that shows the repository `r`.
pub open spec fn repo_text(r: GhRepo) -> Seq<char> {
    "仓库: "@ + r.full_name@ + "\n主页: "@ + r.html_url@ + "\n语言: "@ + language_of(r)
        + " | Star: "@ + decimal(r.stargazers_count as int) + " | Fork: "@ + decimal(
        r.forks_count as int,
    ) + "\n描述: "@ + shown_or(r.description, "无"@) + "\n"@
}

/// The reply to `github repo`: the repository, or the note that the lookup
/// of `repo_arg` failed.
pub open spec fn repo_reply(result: Result<GhRepo, String>, repo_arg: Seq<char>) -> Seq<char> {
    match result {
        Ok(r) => repo_text(r),
        Err(_) => "找不到仓库或请求失败："@ + repo_arg,
    }
}

/// Owner and name in `owner/name`: what stands before and after the first
/// slash, without the white space around either; none if there is no slash
/// or one of the two is blank.
pub open spec fn repo_target(repo_arg: Seq<char>) -> Option<(Seq<char>, Seq<char>)> {
    let i = index_of(repo_arg, '/');
    if i < repo_arg.len() {
        let owner = trimmed(repo_arg.take(i));
        let name = trimmed(repo_arg.skip(i + 1));
        if owner.len() > 0 && name.len() > 0 {
            Some((owner, name))
        } else {
            None
        }
    } else {
        None
    }
}

/// The line of `r` in the result of a search.
pub open spec fn search_line(r: GhRepo) -> Seq<char> {
    r.full_name@ + " - "@ + decimal(r.stargazers_count as int) + "★\n"@ + r.html_url@ + "\n\n"@
}

/// The lines of the first `count` of `items`.
pub open spec fn search_lines(items: Seq<GhRepo>, count: nat) -> Seq<char>
    decreases count,
{
    if count == 0 {
        Seq::empty()
    } else {
        search_lines(items, (count - 1) as nat) + search_line(items[count - 1])
    }
}

/// The smaller of `a` and `b`.
pub open spec fn min_nat(a: nat, b: nat) -> nat {
    if a <= b {
        a
    } else {
        b
    }
}

/// The reply to `github search`: the first `top` repositories found, the
/// note that none was found, or the reason why the search failed.
pub open spec fn search_reply(result: Result<Vec<GhRepo>, String>, top: nat) -> Seq<char> {
    match result {
        Ok(items) => if items@.len() == 0 {
            "未搜索到任何仓库。"@
        } else {
            "【仓库搜索结果】\n"@ + search_lines(items@, min_nat(items@.len(), top))
        },
        Err(e) => "搜索失败："@ + e@,
    }
}

/// Whether the word `t` sets an option: it starts with `--` and holds `=`.
pub open spec fn is_option(t: Seq<char>) -> bool {
    "--"@.is_prefix_of(t) && index_of(t.skip(2), '=') < t.skip(2).len()
}

/// The name of the option that `t` sets: what stands between `--` and the
/// first `=`.
pub open spec fn option_key(t: Seq<char>) -> Seq<char> {
    t.skip(2).take(index_of(t.skip(2), '='))
}

/// The value that `t` sets its option to: what stands after the first `=`.
pub open spec fn option_value(t: Seq<char>) -> Seq<char> {
    t.skip(2).skip(index_of(t.skip(2), '=') + 1)
}

/// The value that the last of `toks` to set the option `key` gives it.
pub open spec fn option_of(toks: Seq<Seq<char>>, key: Seq<char>) -> Option<Seq<char>>
    decreases toks.len(),
{
    if toks.len() == 0 {
        None
    } else if is_option(toks.last()) && option_key(toks.last()) == key {
        Some(option_value(toks.last()))
    } else {
        option_of(toks.drop_last(), key)
    }
}

/// The words among `toks` that set no option, in order.
pub open spec fn keyword_tokens(toks: Seq<Seq<char>>) -> Seq<Seq<char>>
    decreases toks.len(),
{
    if toks.len() == 0 {
        Seq::empty()
    } else if is_option(toks.last()) {
        keyword_tokens(toks.drop_last())
    } else {
        keyword_tokens(toks.drop_last()).push(toks.last())
    }
}

/// The keywords of a search: the words that set no option, joined by single
/// spaces; `java` if there is none.
pub open spec fn keywords_of(toks: Seq<Seq<char>>) -> Seq<char> {
    let k = joined(keyword_tokens(toks), " "@);
    if trimmed(k).len() == 0 {
        "java"@
    } else {
        k
    }
}

/// How many results a search shows: what `--top` says, at most 10; 3 if it
/// is missing, no number, or 0.
pub open spec fn top_of(toks: Seq<Seq<char>>) -> usize {
    let asked: usize = match option_of(toks, "top"@) {
        Some(v) => match parsed_usize(v) {
            Some(n) => n,
            None => 3,
        },
        None => 3,
    };
    if asked == 0 {
        3
    } else if asked > 10 {
        10
    } else {
        asked
    }
}

/// The parameters of a search as a mathematical value.
pub struct ParamsView {
    pub keywords: Seq<char>,
    pub top: usize,
    pub language: Option<Seq<char>>,
    pub sort: Option<Seq<char>>,
    pub order: Option<Seq<char>>,
}

/// The parameters that the text `input` gives to a search.
pub open spec fn params_of(input: Seq<char>) -> ParamsView {
    let toks = words(input);
    ParamsView {
        keywords: keywords_of(toks),
        top: top_of(toks),
        language: option_of(toks, "lang"@),
        sort: option_of(toks, "sort"@),
        order: option_of(toks, "order"@),
    }
}

/// The parameters of a search.
#[derive(Debug, Clone)]
pub struct Params {
    pub keywords: String,
    pub top: usize,
    pub language: Option<String>,
    pub sort: Option<String>,
    pub order: Option<String>,
}

impl View for Params {
    type V = ParamsView;

    open spec fn view(&self) -> ParamsView {
        ParamsView {
            keywords: self.keywords@,
            top: self.top,
            language: opt_text(self.language),
            sort: opt_text(self.sort),
            order: opt_text(self.order),
        }
    }
}

/// Splits the word `t` into option name and value, if it sets an option.
fn split_option(t: &str) -> (r: Option<(String, String)>)
    ensures
        match r {
            Some((k, v)) => is_option(t@) && k@ == option_key(t@) && v@ == option_value(t@),
            None => !is_option(t@),
        },
{
    let v = chars_of(t);
    proof {
        reveal_strlit("--");
        assert("--"@ =~= seq!['-', '-']);
    }
    if !(v.len() >= 2 && v[0] == '-' && v[1] == '-') {
        assert(!"--"@.is_prefix_of(t@)) by {
            if "--"@.is_prefix_of(t@) {
                assert(t@.subrange(0, 2)[0] == '-');
                assert(t@.subrange(0, 2)[1] == '-');
            }
        }
        return None;
    }
    assert("--"@ =~= t@.subrange(0, 2));
    let at = find_char(v.as_slice(), 2, '=');
    if 2 + at >= v.len() {
        return None;
    }
    let key = string_of(v.as_slice(), 2, 2 + at);
    let value = string_of(v.as_slice(), 2 + at + 1, v.len());
    assert(key@ =~= option_key(t@));
    assert(value@ =~= option_value(t@));
    Some((key, value))
}

/// The value that the last of `toks` to set the option `key` gives it.
fn find_option(toks: &Vec<String>, key: &str) -> (r: Option<String>)
    ensures
        opt_text(r) == option_of(strings_view(toks@), key@),
{
    let ghost all = strings_view(toks@);
    let wanted = key.to_owned();
    let mut i: usize = toks.len();
    assert(all.take(i as int) =~= all);
    while i > 0
        invariant
            i <= toks@.len(),
            all == strings_view(toks@),
            wanted@ == key@,
            option_of(all, key@) == option_of(all.take(i as int), key@),
        decreases i,
    {
        let ghost cur = all.take(i as int);
        assert(cur.drop_last() =~= all.take(i as int - 1));
        assert(cur.last() == toks@[i as int - 1]@);
        match split_option(toks[i - 1].as_str()) {
            Some((k, v)) => {
                if k == wanted {
                    return Some(v);
                }
            },
            None => {},
        }
        i -= 1;
    }
    None
}

impl Params {
    /// Reads the parameters of a search from the text after `search`.
    pub fn parse(input: &str) -> (p: Self)
        ensures
            p@ == params_of(input@),
    {
        let toks = split_whitespace(input);
        let ghost all = strings_view(toks@);
        let mut kept: Vec<String> = Vec::new();
        let mut i: usize = 0;
        assert(all.take(0) =~= Seq::<Seq<char>>::empty());
        assert(strings_view(kept@) =~= Seq::<Seq<char>>::empty());
        while i < toks.len()
            invariant
                i <= toks@.len(),
                all == strings_view(toks@),
                strings_view(kept@) == keyword_tokens(all.take(i as int)),
            decreases toks@.len() - i,
        {
            let ghost next = all.take(i as int + 1);
            let ghost before = strings_view(kept@);
            assert(next.drop_last() =~= all.take(i as int));
            assert(next.last() == toks@[i as int]@);
            match split_option(toks[i].as_str()) {
                Some(_) => {},
                None => {
                    kept.push(toks[i].clone());
                    assert(strings_view(kept@) =~= before.push(toks@[i as int]@));
                },
            }
            i += 1;
        }
        assert(all.take(i as int) =~= all);
        assert(strings_view(kept@).skip(0) =~= strings_view(kept@));
        let joined_keywords = join(&kept, 0, " ");
        let keywords = if is_blank(joined_keywords.as_str()) {
            "java".to_owned()
        } else {
            joined_keywords
        };
        let asked: usize = match find_option(&toks, "top") {
            Some(v) => match parse_usize(v.as_str()) {
                Some(n) => n,
                None => 3,
            },
            None => 3,
        };
        let top: usize = if asked == 0 {
            3
        } else if asked > 10 {
            10
        } else {
            asked
        };
        Self {
            keywords,
            top,
            language: find_option(&toks, "lang"),
            sort: find_option(&toks, "sort"),
            order: find_option(&toks, "order"),
        }
    }
}

/// A request to the API: the path below its base, and the pairs of the
/// query.
#[derive(Debug, Clone)]
pub struct GithubRequest {
    pub path: String,
    pub query: Vec<(String, String)>,
}

/// What a subcommand does first: reply at once, or ask the API.
#[derive(Debug, Clone)]
pub enum GithubStep {
    Reply(String),
    Fetch(GithubRequest),
}

/// The text of `o`, without the white space around it, if that is not
/// empty.
pub open spec fn given(o: Option<Seq<char>>) -> Option<Seq<char>> {
    match o {
        Some(s) => if trimmed(s).len() > 0 {
            Some(trimmed(s))
        } else {
            None
        },
        None => None,
    }
}

/// The term of a search: the keywords, and the language if one is given.
pub open spec fn search_term(keywords: Seq<char>, language: Option<Seq<char>>) -> Seq<char> {
    match given(language) {
        Some(l) => keywords + " language:"@ + l,
        None => keywords,
    }
}

/// The query pairs with `key` and the given text of `value` added, if there
/// is such a text.
pub open spec fn with_given(
    q: Seq<(Seq<char>, Seq<char>)>,
    key: Seq<char>,
    value: Option<Seq<char>>,
) -> Seq<(Seq<char>, Seq<char>)> {
    match given(value) {
        Some(v) => q.push((key, v)),
        None => q,
    }
}

/// The query pairs of a search: the term, then sort and order where given,
/// then the page size, at most 10, if it is not 0.
pub open spec fn search_query(
    keywords: Seq<char>,
    sort: Option<Seq<char>>,
    order: Option<Seq<char>>,
    language: Option<Seq<char>>,
    per_page: usize,
) -> Seq<(Seq<char>, Seq<char>)> {
    let q = seq![("q"@, search_term(keywords, language))];
    let q = with_given(q, "sort"@, sort);
    let q = with_given(q, "order"@, order);
    if per_page > 0 {
        q.push(("per_page"@, crate::text::digits(min_nat(per_page as nat, 10))))
    } else {
        q
    }
}

/// The text of `o`, without the white space around it, if that is not
/// empty.
fn given_text(o: &Option<String>) -> (r: Option<String>)
    ensures
        opt_text(r) == given(opt_text(*o)),
{
    match o {
        Some(s) => {
            let v = chars_of(s.as_str());
            let (from, to) = trim_bounds(v.as_slice());
            if from < to {
                Some(string_of(v.as_slice(), from, to))
            } else {
                None
            }
        },
        None => None,
    }
}

impl GitHubApi {
    /// The path of the user `username`.
    pub fn user_path(username: &str) -> (r: String)
        ensures
            r@ == "/users/"@ + username@,
    {
        let mut r = "/users/".to_owned();
        r.append(username);
        r
    }

    /// The path of the repository `repo` of `owner`.
    pub fn repo_path(owner: &str, repo: &str) -> (r: String)
        ensures
            r@ == "/repos/"@ + owner@ + "/"@ + repo@,
    {
        let mut r = "/repos/".to_owned();
        r.append(owner);
        r.append("/");
        r.append(repo);
        r
    }

    /// The query pairs of a search.
    pub fn search_repos(
        keywords: &str,
        sort: &Option<String>,
        order: &Option<String>,
        language: &Option<String>,
        per_page: usize,
    ) -> (q: Vec<(String, String)>)
        ensures
            args_view(q@) == search_query(
                keywords@,
                opt_text(*sort),
                opt_text(*order),
                opt_text(*language),
                per_page,
            ),
    {
        let mut term = keywords.to_owned();
        match given_text(language) {
            Some(l) => {
                term.append(" language:");
                term.append(l.as_str());
            },
            None => {},
        }
        let mut q: Vec<(String, String)> = Vec::new();
        q.push(("q".to_owned(), term));
        assert(args_view(q@) =~= seq![("q"@, search_term(keywords@, opt_text(*language)))]);
        let ghost q1 = args_view(q@);
        match given_text(sort) {
            Some(v) => {
                q.push(("sort".to_owned(), v));
                assert(args_view(q@) =~= q1.push(("sort"@, v@)));
            },
            None => {},
        }
        let ghost q2 = args_view(q@);
        match given_text(order) {
            Some(v) => {
                q.push(("order".to_owned(), v));
                assert(args_view(q@) =~= q2.push(("order"@, v@)));
            },
            None => {},
        }
        let ghost q3 = args_view(q@);
        if per_page > 0 {
            let size: u64 = if per_page > 10 {
                10
            } else {
                per_page as u64
            };
            q.push(("per_page".to_owned(), u64_to_string(size)));
            assert(args_view(q@) =~= q3.push(
                ("per_page"@, crate::text::digits(min_nat(per_page as nat, 10))),
            ));
        }
        q
    }

    /// The value of the authorization header, if there is a token.
    pub fn bearer(&self) -> (r: Option<String>)
        ensures
            opt_text(r) == match self.spec_token() {
                Some(t) => Some("Bearer "@ + t),
                None => None,
            },
    {
        match &self.token {
            Some(t) => {
                let mut r = "Bearer ".to_owned();
                r.append(t.as_str());
                Some(r)
            },
            None => None,
        }
    }

    /// The reason to give for a response that is no success: the message of
    /// the API if it sent one, else the reason phrase of the status, else
    /// `HTTP error`.
    pub fn failure_message(api_message: Option<String>, reason: Option<&str>) -> (r: String)
        ensures
            r@ == match api_message {
                Some(m) => m@,
                None => match reason {
                    Some(p) => p@,
                    None => "HTTP error"@,
                },
            },
    {
        match api_message {
            Some(m) => m,
            None => match reason {
                Some(p) => p.to_owned(),
                None => "HTTP error".to_owned(),
            },
        }
    }
}

/// What a subcommand does first, as a mathematical value.
pub enum GithubStepView {
    Reply(Seq<char>),
    Fetch { path: Seq<char>, query: Seq<(Seq<char>, Seq<char>)> },
}

impl View for GithubStep {
    type V = GithubStepView;

    open spec fn view(&self) -> GithubStepView {
        match self {
            GithubStep::Reply(t) => GithubStepView::Reply(t@),
            GithubStep::Fetch(r) => GithubStepView::Fetch {
                path: r.path@,
                query: args_view(r.query@),
            },
        }
    }
}

/// What the request `call` does first: a lookup asks the API for the user
/// or the repository, a search asks with the parameters in its text, and a
/// repository that is not given as `owner/name` is refused at once.
pub open spec fn first_step(call: GithubCallView) -> GithubStepView {
    match call {
        GithubCallView::User(username) => GithubStepView::Fetch {
            path: "/users/"@ + username,
            query: Seq::empty(),
        },
        GithubCallView::Repo(arg) => match repo_target(arg) {
            Some((owner, name)) => GithubStepView::Fetch {
                path: "/repos/"@ + owner + "/"@ + name,
                query: Seq::empty(),
            },
            None => GithubStepView::Reply("仓库格式应为 owner/repo"@),
        },
        GithubCallView::Search(q) => {
            let p = params_of(q);
            GithubStepView::Fetch {
                path: "/search/repositories"@,
                query: search_query(p.keywords, p.sort, p.order, p.language, p.top),
            }
        },
    }
}

impl GitHubCommand {
    /// Owner and name in `repo_arg`, if it is given as `owner/name`.
    pub fn split_repo(repo_arg: &str) -> (r: Option<(String, String)>)
        ensures
            match r {
                Some((owner, name)) => repo_target(repo_arg@) == Some((owner@, name@)),
                None => repo_target(repo_arg@) is None,
            },
    {
        let v = chars_of(repo_arg);
        assert(v@.skip(0) =~= v@);
        let at = find_char(v.as_slice(), 0, '/');
        if at >= v.len() {
            return None;
        }
        assert(v@.subrange(0, at as int) =~= repo_arg@.take(at as int));
        assert(v@.subrange(at as int + 1, v@.len() as int) =~= repo_arg@.skip(at as int + 1));
        let owner = trimmed_part(v.as_slice(), 0, at);
        let name = trimmed_part(v.as_slice(), at + 1, v.len());
        if owner.as_str().unicode_len() == 0 || name.as_str().unicode_len() == 0 {
            return None;
        }
        Some((owner, name))
    }

    /// What the request `call` does first.
    pub fn begin(call: &GithubCall) -> (step: GithubStep)
        ensures
            step@ == first_step(call@),
    {
        match call {
            GithubCall::User(username) => {
                let query: Vec<(String, String)> = Vec::new();
                assert(args_view(query@) =~= Seq::empty());
                GithubStep::Fetch(
                    GithubRequest { path: GitHubApi::user_path(username.as_str()), query },
                )
            },
            GithubCall::Repo(arg) => match Self::split_repo(arg.as_str()) {
                Some((owner, name)) => {
                    let query: Vec<(String, String)> = Vec::new();
                    assert(args_view(query@) =~= Seq::empty());
                    GithubStep::Fetch(
                        GithubRequest {
                            path: GitHubApi::repo_path(owner.as_str(), name.as_str()),
                            query,
                        },
                    )
                },
                None => GithubStep::Reply("仓库格式应为 owner/repo".to_owned()),
            },
            GithubCall::Search(q) => {
                let p = Params::parse(q.as_str());
                let query = GitHubApi::search_repos(
                    p.keywords.as_str(),
                    &p.sort,
                    &p.order,
                    &p.language,
                    p.top,
                );
                GithubStep::Fetch(
                    GithubRequest { path: "/search/repositories".to_owned(), query },
                )
            },
        }
    }

    /// The reply to `github user`, once the API has answered or failed.
    pub fn handle_user(result: &Result<GhUser, String>, username: &str) -> (r: String)
        ensures
            r@ == user_reply(*result, username@),
    {
        match result {
            Ok(u) => {
                let mut r = "用户: ".to_owned();
                r.append(text_or(&u.name, u.login.as_str()).as_str());
                r.append(" (");
                r.append(u.login.as_str());
                r.append(")\n主页: ");
                r.append(u.html_url.as_str());
                r.append("\n公开仓库: ");
                r.append(i64_to_string(u.public_repos).as_str());
                r.append(" | 粉丝: ");
                r.append(i64_to_string(u.followers).as_str());
                r.append(" | 关注: ");
                r.append(i64_to_string(u.following).as_str());
                r.append("\n");
                r
            },
            Err(_) => {
                let mut r = "找不到用户或请求失败：".to_owned();
                r.append(username);
                r
            },
        }
    }

    /// The reply to `github repo`, once the API has answered or failed.
    pub fn handle_repo(result: &Result<GhRepo, String>, repo_arg: &str) -> (r: String)
        ensures
            r@ == repo_reply(*result, repo_arg@),
    {
        match result {
            Ok(repo) => {
                let mut r = "仓库: ".to_owned();
                r.append(repo.full_name.as_str());
                r.append("\n主页: ");
                r.append(repo.html_url.as_str());
                r.append("\n语言: ");
                match &repo.language {
                    Some(l) => {
                        r.append(l.as_str());
                    },
                    None => {
                        r.append("未知");
                    },
                }
                r.append(" | Star: ");
                r.append(i64_to_string(repo.stargazers_count).as_str());
                r.append(" | Fork: ");
                r.append(i64_to_string(repo.forks_count).as_str());
                r.append("\n描述: ");
                r.append(text_or(&repo.description, "无").as_str());
                r.append("\n");
                r
            },
            Err(_) => {
                let mut r = "找不到仓库或请求失败：".to_owned();
                r.append(repo_arg);
                r
            },
        }
    }

    /// The reply to `github search`, once the API has answered or failed:
    /// at most `top` of the repositories found.
    pub fn handle_search(result: &Result<Vec<GhRepo>, String>, top: usize) -> (r: String)
        ensures
            r@ == search_reply(*result, top as nat),
    {
        match result {
            Ok(items) => {
                if items.len() == 0 {
                    return "未搜索到任何仓库。".to_owned();
                }
                let count: usize = if items.len() <= top {
                    items.len()
                } else {
                    top
                };
                let mut r = "【仓库搜索结果】\n".to_owned();
                let mut i: usize = 0;
                while i < count
                    invariant
                        i <= count <= items@.len(),
                        r@ == "【仓库搜索结果】\n"@ + search_lines(items@, i as nat),
                    decreases count - i,
                {
                    let repo = &items[i];
                    r.append(repo.full_name.as_str());
                    r.append(" - ");
                    r.append(i64_to_string(repo.stargazers_count).as_str());
                    r.append("★\n");
                    r.append(repo.html_url.as_str());
                    r.append("\n\n");
                    assert(r@ =~= "【仓库搜索结果】\n"@ + search_lines(items@, (i + 1) as nat));
                    i += 1;
                }
                r
            },
            Err(e) => {
                let mut r = "搜索失败：".to_owned();
                r.append(e.as_str());
                r
            },
        }
    }
}

/// Why no address could be made for a request.
#[derive(Debug, Clone, Copy, PartialEq, Eq, Structural)]
pub enum RequestError {
    /// The base of the API is no address.
    BadBase,
    /// The path gives no address below the base.
    BadPath,
    /// The address with its query is too long to be held.
    TooLong,
}

/// The base of the API.
pub open spec fn api_base() -> Seq<char> {
    "https://api.github.com"@
}

/// The text of the address `url` with the first `n` pairs of `query` added,
/// one after the other.
pub open spec fn with_pairs(url: Seq<char>, query: Seq<(Seq<char>, Seq<char>)>, n: nat) -> Result<
    Seq<char>,
    RequestError,
>
    decreases n,
{
    if n == 0 || n > query.len() {
        Ok(url)
    } else {
        match with_pairs(url, query, (n - 1) as nat) {
            Err(e) => Err(e),
            Ok(u) => {
                let pair = query[n - 1];
                if fits(u, pair.0 + pair.1) {
                    Ok(url_with_pair(u, pair.0, pair.1))
                } else {
                    Err(RequestError::TooLong)
                }
            },
        }
    }
}

/// The text of the address of a request: the path read against the base of
/// the API, with the pairs of the query added in order.
pub open spec fn request_address(path: Seq<char>, query: Seq<(Seq<char>, Seq<char>)>) -> Result<
    Seq<char>,
    RequestError,
> {
    match url_parsed(api_base()) {
        None => Err(RequestError::BadBase),
        Some(base) => match url_joined(base, path) {
            None => Err(RequestError::BadPath),
            Some(u) => with_pairs(u, query, query.len()),
        },
    }
}

/// Once a pair did not fit, more pairs change nothing.
pub proof fn lemma_with_pairs_stays_failed(
    url: Seq<char>,
    query: Seq<(Seq<char>, Seq<char>)>,
    n: nat,
    m: nat,
)
    requires
        n <= m <= query.len(),
        with_pairs(url, query, n) is Err,
    ensures
        with_pairs(url, query, m) == with_pairs(url, query, n),
    decreases m - n,
{
    if n < m {
        lemma_with_pairs_stays_failed(url, query, n, (m - 1) as nat);
    }
}

/// `key` followed by `value`.
fn pair_text(key: &str, value: &str) -> (r: String)
    ensures
        r@ == key@ + value@,
{
    let mut r = key.to_owned();
    r.append(value);
    r
}

impl GitHubApi {
    /// The address of `request`.
    pub fn request_url(request: &GithubRequest) -> (r: Result<Url, RequestError>)
        ensures
            match r {
                Ok(u) => request_address(request.path@, args_view(request.query@)) == Ok::<
                    Seq<char>,
                    RequestError,
                >(url_text(u)),
                Err(e) => request_address(request.path@, args_view(request.query@)) == Err::<
                    Seq<char>,
                    RequestError,
                >(e),
            },
    {
        let base = match parse_url("https://api.github.com") {
            Some(b) => b,
            None => {
                return Err(RequestError::BadBase);
            },
        };
        let mut url = match join_url(&base, request.path.as_str()) {
            Some(u) => u,
            None => {
                return Err(RequestError::BadPath);
            },
        };
        let ghost start = url_text(url);
        let ghost query = args_view(request.query@);
        let mut i: usize = 0;
        while i < request.query.len()
            invariant
                i <= request.query@.len(),
                query == args_view(request.query@),
                query.len() == request.query@.len(),
                url_parsed(api_base()) == Some(url_text(base)),
                url_joined(url_text(base), request.path@) == Some(start),
                with_pairs(start, query, i as nat) == Ok::<Seq<char>, RequestError>(url_text(url)),
            decreases request.query@.len() - i,
        {
            let key = &request.query[i].0;
            let value = &request.query[i].1;
            assert(query[i as int] == (key@, value@));
            let both = pair_text(key.as_str(), value.as_str());
            if !check_fits(&url, both.as_str()) {
                proof {
                    assert(with_pairs(start, query, (i + 1) as nat) == Err::<
                        Seq<char>,
                        RequestError,
                    >(RequestError::TooLong));
                    lemma_with_pairs_stays_failed(start, query, (i + 1) as nat, query.len());
                }
                return Err(RequestError::TooLong);
            }
            append_query_pair(&mut url, key.as_str(), value.as_str());
            i += 1;
        }
        Ok(url)
    }
}

} // verus!
