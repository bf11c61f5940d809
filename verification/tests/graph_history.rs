use gitgobig::graph::{compute_graph, GraphRow};
use gitgobig::history::{BranchLabel, CommitsReply, HistoryRequest, HistoryState, PAGE_SIZE};
use gitgobig::search::{filter_commits, filter_names, filter_worktrees, CommitSearch};
use gitgobig::types::{CommitEntry, Worktree};

fn commit(hash: &str, parents: &[&str], subject: &str, author: &str) -> CommitEntry {
    CommitEntry {
        hash: hash.to_string(),
        short_hash: hash.chars().take(4).collect(),
        subject: subject.to_string(),
        date: "2024-01-02".to_string(),
        author: author.to_string(),
        refs: String::new(),
        parents: parents.iter().map(|p| p.to_string()).collect(),
    }
}

fn row(col: usize, color: usize, inc: &[(usize, usize, usize)], out: &[(usize, usize, usize)], n: usize) -> GraphRow {
    GraphRow { commit_col: col, commit_color: color, incoming: inc.to_vec(), outgoing: out.to_vec(), num_cols: n }
}

fn strings(v: &[&str]) -> Vec<String> {
    v.iter().map(|s| s.to_string()).collect()
}

#[test]
fn graph_of_linear_history_uses_one_lane() {
    let cs = vec![commit("a", &["b"], "s", "x"), commit("b", &["c"], "s", "x"), commit("c", &[], "s", "x")];
    let rows = compute_graph(&cs);
    assert_eq!(
        rows,
        vec![
            row(0, 1, &[(0, 0, 1)], &[(0, 0, 1)], 1),
            row(0, 1, &[(0, 0, 1)], &[(0, 0, 1)], 1),
            row(0, 1, &[(0, 0, 1)], &[], 1),
        ]
    );
}

#[test]
fn graph_of_merge_opens_and_joins_a_lane() {
    let cs = vec![commit("m", &["a", "f"], "merge", "x"), commit("f", &["a"], "feat", "x"), commit("a", &[], "root", "x")];
    let rows = compute_graph(&cs);
    assert_eq!(
        rows,
        vec![
            row(0, 1, &[(0, 0, 1)], &[(0, 0, 1), (0, 1, 2)], 2),
            row(1, 2, &[(0, 0, 1), (1, 1, 2)], &[(0, 0, 1), (1, 1, 2)], 2),
            row(0, 1, &[(0, 0, 1), (1, 0, 2)], &[], 2),
        ]
    );
}

#[test]
fn graph_has_one_row_per_commit_and_columns_never_shrink() {
    let cs = vec![
        commit("m", &["a", "f", "g"], "", ""),
        commit("g", &["a"], "", ""),
        commit("f", &["a"], "", ""),
        commit("x", &[], "", ""),
        commit("a", &[], "", ""),
    ];
    let rows = compute_graph(&cs);
    assert_eq!(rows.len(), cs.len());
    for w in rows.windows(2) {
        assert!(w[0].num_cols <= w[1].num_cols);
    }
    for r in &rows {
        assert!(r.commit_col < r.num_cols);
    }
    assert!(compute_graph(&vec![]).is_empty());
}

#[test]
fn name_filter_ignores_case_and_keeps_order() {
    let names = strings(&["Main", "develop", "feature/MAIN-fix", "x"]);
    assert_eq!(filter_names(&names, "main"), vec![0, 2]);
    assert_eq!(filter_names(&names, ""), vec![0, 1, 2, 3]);
    assert_eq!(filter_names(&names, "zzz"), Vec::<usize>::new());
    assert_eq!(filter_names(&strings(&["ÄBC", "abc"]), "äbc"), vec![0]);
}

#[test]
fn worktree_filter_reads_path_and_branch() {
    let wts = vec![
        Worktree { path: "/w/one".into(), branch: Some("Feature".into()), commit: None },
        Worktree { path: "/w/two".into(), branch: None, commit: None },
    ];
    assert_eq!(filter_worktrees(&wts, "feat"), vec![0]);
    assert_eq!(filter_worktrees(&wts, "TWO"), vec![1]);
    assert_eq!(filter_worktrees(&wts, ""), vec![0, 1]);
}

fn search(hash: &str, message: &str, author: &str, regex: bool) -> CommitSearch {
    CommitSearch { hash: hash.into(), message: message.into(), date: String::new(), author: author.into(), regex }
}

#[test]
fn commit_search_matches_every_filled_field() {
    let cs = vec![
        commit("abcdef", &[], "Fix the parser", "Ann"),
        commit("123456", &[], "Add feature", "Bob"),
        commit("fedcba", &[], "fix docs", "Bob"),
    ];
    assert_eq!(filter_commits(&search("", "", "", false), &cs), Vec::<usize>::new());
    assert_eq!(filter_commits(&search("", "fix", "", false), &cs), vec![0, 2]);
    assert_eq!(filter_commits(&search("", "fix", "bob", false), &cs), vec![2]);
    assert_eq!(filter_commits(&search("1234", "", "", false), &cs), vec![1]);
    assert_eq!(filter_commits(&search("", "^fix", "", true), &cs), vec![0, 2]);
    assert_eq!(filter_commits(&search("", "d.c", "", true), &cs), vec![2]);
    // A pattern that does not compile is searched for as text.
    assert_eq!(filter_commits(&search("", "(", "", true), &cs), Vec::<usize>::new());
}

#[test]
fn regex_search_ignores_case() {
    let cs = vec![commit("1", &[], "ABBC", "x"), commit("2", &[], "ac", "x")];
    assert_eq!(filter_commits(&search("", "^ab+c$", "", true), &cs), vec![0]);
    assert_eq!(filter_commits(&search("", "^ab+c$", "", false), &cs), Vec::<usize>::new());
}

#[test]
fn viewer_starts_loading_the_first_page_and_branches() {
    let (st, reqs) = HistoryState::new("/repo");
    assert!(st.loading);
    assert_eq!(
        reqs,
        vec![
            HistoryRequest::LoadCommits { skip: 0, count: PAGE_SIZE, branches: None, reply: CommitsReply::Page },
            HistoryRequest::LoadBranches,
        ]
    );
}

#[test]
fn viewer_appends_pages_and_stops_after_a_short_one() {
    let (mut st, _) = HistoryState::new("/repo");
    let e = st.commits_loaded(Ok(vec![commit("a", &["b"], "one", "x"), commit("b", &[], "two", "x")]));
    assert!(e.graph_rebuilt);
    assert_eq!(e.request, HistoryRequest::Nothing);
    assert_eq!(st.commits.len(), 2);
    assert_eq!(st.graph_rows.len(), 2);
    assert_eq!(st.max_graph_cols, 1);
    assert!(st.all_loaded);
    assert!(!st.loading);
    let e = st.load_more();
    assert_eq!(e.request, HistoryRequest::Nothing);
}

#[test]
fn viewer_keeps_commits_on_a_failed_page() {
    let (mut st, _) = HistoryState::new("/repo");
    st.commits_loaded(Ok(vec![commit("a", &[], "one", "x")]));
    st.all_loaded = false;
    let e = st.load_more();
    assert_eq!(
        e.request,
        HistoryRequest::LoadCommits { skip: 1, count: PAGE_SIZE, branches: None, reply: CommitsReply::Page }
    );
    st.commits_loaded(Err("boom".into()));
    assert_eq!(st.commits.len(), 1);
    assert!(st.error.is_none());
    let (mut fresh, _) = HistoryState::new("/repo");
    fresh.commits_loaded(Err("boom".into()));
    assert_eq!(fresh.error, Some("boom".to_string()));
}

#[test]
fn viewer_search_fields_refilter() {
    let (mut st, _) = HistoryState::new("/repo");
    st.commits_loaded(Ok(vec![commit("a1", &["b2"], "Fix bug", "Ann"), commit("b2", &[], "Init", "Bob")]));
    st.set_search_message("fix".into());
    assert_eq!(st.filtered_indices, vec![0]);
    assert!(st.has_active_search());
    st.set_search_author("bob".into());
    assert_eq!(st.filtered_indices, Vec::<usize>::new());
    st.clear_search();
    assert!(!st.has_active_search());
    assert!(st.filtered_indices.is_empty());
}

#[test]
fn viewer_search_depth_accepts_digits_only() {
    let (mut st, _) = HistoryState::new("/repo");
    st.commits_loaded(Ok(vec![commit("a", &[], "x", "y")]));
    st.all_loaded = false;
    st.set_search_depth("12a".into());
    assert_eq!(st.search_depth, "");
    let e = st.set_search_depth("5".into());
    assert_eq!(st.search_depth, "5");
    assert_eq!(
        e.request,
        HistoryRequest::LoadCommits { skip: 1, count: 4, branches: None, reply: CommitsReply::Search }
    );
    assert!(st.search_loading);
}

#[test]
fn viewer_branch_selection_reloads() {
    let (mut st, _) = HistoryState::new("/repo");
    st.branches_loaded(Ok(strings(&["main", "dev"])));
    assert_eq!(st.branch_label(), BranchLabel::All(2));
    let e = st.toggle_branch("dev".into());
    assert!(st.commits.is_empty());
    assert_eq!(
        e.request,
        HistoryRequest::LoadCommits {
            skip: 0,
            count: PAGE_SIZE,
            branches: Some(strings(&["main"])),
            reply: CommitsReply::BranchReload,
        }
    );
    let e = st.deselect_all_branches();
    assert_eq!(e.request, HistoryRequest::Nothing);
    assert!(st.all_loaded);
    assert_eq!(st.branch_label(), BranchLabel::Partial(0, 2));
    let e = st.select_all_branches();
    match e.request {
        HistoryRequest::LoadCommits { branches, reply, .. } => {
            assert_eq!(reply, CommitsReply::BranchReload);
            assert_eq!(branches, None);
        }
        other => panic!("unexpected request {:?}", other),
    }
}

#[test]
fn viewer_selection_toggles_and_menus() {
    let (mut st, _) = HistoryState::new("/repo");
    st.select_commit(3);
    assert_eq!(st.selected_index, Some(3));
    st.select_commit(3);
    assert_eq!(st.selected_index, None);
    st.show_context_menu(2);
    assert_eq!(st.context_menu, Some(2));
    assert_eq!(st.selected_index, Some(2));
    let e = st.copy_hash("abc".into());
    assert_eq!(e.request, HistoryRequest::CopyToClipboard("abc".into()));
    assert_eq!(st.context_menu, None);
    let e = st.inspect_commit("abc".into());
    assert_eq!(e.request, HistoryRequest::LoadDetail("abc".into()));
    st.inspect_loaded(Err("bad".into()));
    assert_eq!(st.inspect, Some("Error: bad".to_string()));
    st.dismiss_inspect();
    assert_eq!(st.inspect, None);
}
