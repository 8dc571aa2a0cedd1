use lukosbot::commands::github::{
    is_blank, GhRepo, GhUser, GitHubApi, GitHubCommand, GithubCall, GithubRequest, GithubStep,
    Params, RequestError,
};

fn user(name: Option<&str>) -> GhUser {
    GhUser {
        login: "octocat".to_string(),
        name: name.map(|s| s.to_string()),
        html_url: "https://github.com/octocat".to_string(),
        public_repos: 8,
        followers: 12345,
        following: 9,
    }
}

fn repo(i: i64) -> GhRepo {
    GhRepo {
        full_name: format!("o/r{}", i),
        html_url: format!("https://github.com/o/r{}", i),
        language: Some("Rust".to_string()),
        stargazers_count: i * 10,
        forks_count: i,
        description: Some(format!("repo {}", i)),
    }
}

#[test]
fn params_defaults() {
    let p = Params::parse("");
    assert_eq!(p.keywords, "java");
    assert_eq!(p.top, 3);
    assert_eq!(p.language, None);
    assert_eq!(p.sort, None);
    assert_eq!(p.order, None);
}

#[test]
fn params_read_keywords_and_options() {
    let p = Params::parse("  lukosbot  bot --top=5 --lang=java --sort=stars --order=desc ");
    assert_eq!(p.keywords, "lukosbot bot");
    assert_eq!(p.top, 5);
    assert_eq!(p.language.as_deref(), Some("java"));
    assert_eq!(p.sort.as_deref(), Some("stars"));
    assert_eq!(p.order.as_deref(), Some("desc"));
}

#[test]
fn params_top_is_between_one_and_ten() {
    assert_eq!(Params::parse("x --top=0").top, 3);
    assert_eq!(Params::parse("x --top=1").top, 1);
    assert_eq!(Params::parse("x --top=10").top, 10);
    assert_eq!(Params::parse("x --top=11").top, 10);
    assert_eq!(Params::parse("x --top=+7").top, 7);
    assert_eq!(Params::parse("x --top=abc").top, 3);
    assert_eq!(Params::parse("x --top=").top, 3);
    assert_eq!(Params::parse("x --top=-2").top, 3);
    assert_eq!(Params::parse("x --top=99999999999999999999999999").top, 3);
    assert_eq!(Params::parse("x --top=18446744073709551615").top, 10);
}

#[test]
fn params_last_option_wins_and_odd_words_are_keywords() {
    let p = Params::parse("--lang=go a --flag --lang=rust b --=x --k=v=w -- --top");
    assert_eq!(p.language.as_deref(), Some("rust"));
    assert_eq!(p.keywords, "a --flag b -- --top");
    let q = Params::parse("--sort= --order==asc");
    assert_eq!(q.sort.as_deref(), Some(""));
    assert_eq!(q.order.as_deref(), Some("=asc"));
    assert_eq!(q.keywords, "java");
}

#[test]
fn user_reply_shows_name_or_login() {
    let text = GitHubCommand::handle_user(&Ok(user(Some("The Octocat"))), "octocat");
    assert_eq!(
        text,
        "用户: The Octocat (octocat)\n主页: https://github.com/octocat\n公开仓库: 8 | 粉丝: 12345 | 关注: 9\n"
    );
    let text = GitHubCommand::handle_user(&Ok(user(Some("   "))), "octocat");
    assert!(text.starts_with("用户: octocat (octocat)\n"));
    let text = GitHubCommand::handle_user(&Ok(user(None)), "octocat");
    assert!(text.starts_with("用户: octocat (octocat)\n"));
    let text = GitHubCommand::handle_user(&Err("boom".to_string()), "nobody");
    assert_eq!(text, "找不到用户或请求失败：nobody");
}

#[test]
fn repo_reply_shows_language_and_description() {
    let mut r = repo(3);
    let text = GitHubCommand::handle_repo(&Ok(r.clone()), "o/r3");
    assert_eq!(
        text,
        "仓库: o/r3\n主页: https://github.com/o/r3\n语言: Rust | Star: 30 | Fork: 3\n描述: repo 3\n"
    );
    r.language = None;
    r.description = Some(" ".to_string());
    r.stargazers_count = -1;
    let text = GitHubCommand::handle_repo(&Ok(r), "o/r3");
    assert_eq!(
        text,
        "仓库: o/r3\n主页: https://github.com/o/r3\n语言: 未知 | Star: -1 | Fork: 3\n描述: 无\n"
    );
    assert_eq!(
        GitHubCommand::handle_repo(&Err("x".to_string()), "a/b"),
        "找不到仓库或请求失败：a/b"
    );
}

#[test]
fn search_reply_lists_at_most_top() {
    let items: Vec<GhRepo> = (1..=4).map(repo).collect();
    let text = GitHubCommand::handle_search(&Ok(items.clone()), 2);
    assert_eq!(
        text,
        "【仓库搜索结果】\no/r1 - 10★\nhttps://github.com/o/r1\n\no/r2 - 20★\nhttps://github.com/o/r2\n\n"
    );
    let all = GitHubCommand::handle_search(&Ok(items.clone()), 10);
    assert_eq!(all.matches('★').count(), 4);
    assert_eq!(GitHubCommand::handle_search(&Ok(items), 0), "【仓库搜索结果】\n");
    assert_eq!(GitHubCommand::handle_search(&Ok(Vec::new()), 3), "未搜索到任何仓库。");
    assert_eq!(GitHubCommand::handle_search(&Err("rate limit".to_string()), 3), "搜索失败：rate limit");
}

#[test]
fn repo_argument_is_owner_slash_name() {
    assert_eq!(
        GitHubCommand::split_repo(" rust-lang / rust "),
        Some(("rust-lang".to_string(), "rust".to_string()))
    );
    assert_eq!(GitHubCommand::split_repo("a/b/c"), Some(("a".to_string(), "b/c".to_string())));
    assert_eq!(GitHubCommand::split_repo("nodash"), None);
    assert_eq!(GitHubCommand::split_repo("/x"), None);
    assert_eq!(GitHubCommand::split_repo("x/"), None);
    assert_eq!(GitHubCommand::split_repo(" / "), None);
    assert_eq!(GitHubCommand::split_repo(""), None);
}

fn fetch(step: GithubStep) -> (String, Vec<(String, String)>) {
    match step {
        GithubStep::Fetch(r) => (r.path, r.query),
        GithubStep::Reply(t) => panic!("unexpected reply: {}", t),
    }
}

fn pair(a: &str, b: &str) -> (String, String) {
    (a.to_string(), b.to_string())
}

#[test]
fn calls_begin_with_a_request_or_a_refusal() {
    assert_eq!(
        fetch(GitHubCommand::begin(&GithubCall::User("octocat".to_string()))),
        ("/users/octocat".to_string(), vec![])
    );
    assert_eq!(
        fetch(GitHubCommand::begin(&GithubCall::Repo("rust-lang / rust".to_string()))),
        ("/repos/rust-lang/rust".to_string(), vec![])
    );
    match GitHubCommand::begin(&GithubCall::Repo("rust".to_string())) {
        GithubStep::Reply(t) => assert_eq!(t, "仓库格式应为 owner/repo"),
        GithubStep::Fetch(_) => panic!("unexpected request"),
    }
    assert_eq!(
        fetch(GitHubCommand::begin(&GithubCall::Search(
            "lukosbot --top=5 --lang=java --sort=stars --order=desc".to_string()
        ))),
        (
            "/search/repositories".to_string(),
            vec![
                pair("q", "lukosbot language:java"),
                pair("sort", "stars"),
                pair("order", "desc"),
                pair("per_page", "5"),
            ]
        )
    );
    assert_eq!(
        fetch(GitHubCommand::begin(&GithubCall::Search("".to_string()))),
        ("/search/repositories".to_string(), vec![pair("q", "java"), pair("per_page", "3")])
    );
}

#[test]
fn search_query_skips_blank_options_and_caps_the_page() {
    let q = GitHubApi::search_repos("k", &Some("  ".to_string()), &None, &Some(" go ".to_string()), 50);
    assert_eq!(q, vec![pair("q", "k language:go"), pair("per_page", "10")]);
    let q = GitHubApi::search_repos("k w", &Some(" updated ".to_string()), &Some("asc".to_string()), &None, 0);
    assert_eq!(q, vec![pair("q", "k w"), pair("sort", "updated"), pair("order", "asc")]);
}

#[test]
fn token_is_trimmed_and_sent_as_bearer() {
    assert_eq!(GitHubApi::new(Some(" abc ".to_string())).bearer(), Some("Bearer abc".to_string()));
    assert_eq!(GitHubApi::new(Some("   ".to_string())).bearer(), None);
    assert_eq!(GitHubApi::new(Some(String::new())).token(), None);
    assert_eq!(GitHubApi::new(None).bearer(), None);
    assert_eq!(GitHubCommand::new(Some("t".to_string())).api().token(), Some(&"t".to_string()));
}

#[test]
fn failure_message_prefers_the_api_message() {
    assert_eq!(GitHubApi::failure_message(Some("Not Found".into()), Some("Not Found!")), "Not Found");
    assert_eq!(GitHubApi::failure_message(None, Some("Forbidden")), "Forbidden");
    assert_eq!(GitHubApi::failure_message(None, None), "HTTP error");
    assert_eq!(GitHubApi::user_path("a b"), "/users/a b");
    assert_eq!(GitHubApi::repo_path("o", "r"), "/repos/o/r");
    assert!(is_blank(" \t"));
    assert!(!is_blank(" x "));
}

fn request(path: &str, query: Vec<(String, String)>) -> GithubRequest {
    GithubRequest { path: path.to_string(), query }
}

#[test]
fn request_address_is_base_path_and_query() {
    let u = GitHubApi::request_url(&request("/users/octocat", vec![])).unwrap();
    assert_eq!(u.as_str(), "https://api.github.com/users/octocat");
    let u = GitHubApi::request_url(&request(
        "/search/repositories",
        vec![pair("q", "lukosbot language:java"), pair("sort", "stars"), pair("per_page", "5")],
    ))
    .unwrap();
    assert_eq!(
        u.as_str(),
        "https://api.github.com/search/repositories?q=lukosbot+language%3Ajava&sort=stars&per_page=5"
    );
    let u = GitHubApi::request_url(&request("/users/a b", vec![])).unwrap();
    assert_eq!(u.as_str(), "https://api.github.com/users/a%20b");
}

#[test]
fn request_address_errors() {
    assert_eq!(
        GitHubApi::request_url(&request("//[", vec![])).unwrap_err(),
        RequestError::BadPath
    );
}

#[test]
fn search_call_gives_the_address_of_the_search() {
    match GitHubCommand::begin(&GithubCall::Search("verus --sort=updated".to_string())) {
        GithubStep::Fetch(r) => assert_eq!(
            GitHubApi::request_url(&r).unwrap().as_str(),
            "https://api.github.com/search/repositories?q=verus&sort=updated&per_page=3"
        ),
        GithubStep::Reply(t) => panic!("unexpected reply: {}", t),
    }
}
