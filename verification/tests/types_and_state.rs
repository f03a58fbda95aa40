use tlparse_vllm::state::{normalize_config, VllmState};
use tlparse_vllm::types::{ArtifactInfo, VllmCompilationConfig, VllmSubgraphInfo};

fn subgraph(index: i32, name: Option<&str>, start: i64, end: i64, single: bool) -> VllmSubgraphInfo {
    VllmSubgraphInfo {
        index,
        submod_name: name.map(|s| s.to_string()),
        compile_range_start: start,
        compile_range_end: end,
        is_single_size: single,
        is_cudagraph_size: false,
        artifacts: Vec::new(),
    }
}

#[test]
fn size_or_range_of_single_size() {
    assert_eq!(subgraph(0, None, 8, 8, true).size_or_range(), "size 8");
    assert_eq!(subgraph(0, None, 0, 0, true).size_or_range(), "size 0");
    assert_eq!(subgraph(0, None, -12, 0, true).size_or_range(), "size -12");
}

#[test]
fn size_or_range_of_range() {
    assert_eq!(subgraph(0, None, 1, 8192, false).size_or_range(), "range [1, 8192]");
    assert_eq!(
        subgraph(0, None, i64::MIN, i64::MAX, false).size_or_range(),
        "range [-9223372036854775808, 9223372036854775807]"
    );
}

#[test]
fn display_submod_name_uses_name_or_index() {
    assert_eq!(subgraph(3, Some("submod_7"), 1, 1, true).display_submod_name(), "submod_7");
    assert_eq!(subgraph(3, None, 1, 1, true).display_submod_name(), "subgraph_3");
    assert_eq!(subgraph(-1, None, 1, 1, true).display_submod_name(), "subgraph_-1");
}

#[test]
fn new_state_is_empty() {
    let s = VllmState::new();
    assert!(!s.has_artifacts());
    assert!(s.config.is_none());
    assert!(s.piecewise_graph_file.is_none());
    assert!(s.subgraphs.is_empty());
    assert!(s.pre_subgraph_artifacts.is_empty());
}

#[test]
fn artifacts_before_any_subgraph_are_kept_apart() {
    let mut s = VllmState::new();
    s.add_artifact("-_0_0_0/dynamo_output_graph_3.txt", "(1 lines)".to_string());
    assert_eq!(s.pre_subgraph_artifacts.len(), 1);
    let a = &s.pre_subgraph_artifacts[0];
    assert_eq!(a.name, "dynamo_output_graph_3");
    assert_eq!(a.url, "-_0_0_0/dynamo_output_graph_3.txt");
    assert_eq!(a.suffix, "(1 lines)");
    assert!(s.subgraphs.is_empty());
}

#[test]
fn artifacts_attach_to_the_latest_subgraph() {
    let mut s = VllmState::new();
    s.subgraphs.push(subgraph(0, Some("submod_0"), 1, 1, true));
    s.subgraphs.push(subgraph(1, Some("submod_1"), 2, 2, true));
    s.add_artifact("dir/inductor_output_code.html", String::new());
    assert!(s.pre_subgraph_artifacts.is_empty());
    assert!(s.subgraphs[0].artifacts.is_empty());
    assert_eq!(s.subgraphs[1].artifacts.len(), 1);
    assert_eq!(s.subgraphs[1].artifacts[0].name, "inductor_output_code");
}

#[test]
fn split_graph_file_is_remembered() {
    let mut s = VllmState::new();
    s.add_artifact("a/b/vllm_piecewise_split_graph_2.txt", String::new());
    assert_eq!(s.piecewise_graph_file.as_deref(), Some("a/b/vllm_piecewise_split_graph_2.txt"));
    s.add_artifact("a/b/other.txt", String::new());
    assert_eq!(s.piecewise_graph_file.as_deref(), Some("a/b/vllm_piecewise_split_graph_2.txt"));
}

#[test]
fn artifact_without_stem_is_named_by_its_path() {
    let mut s = VllmState::new();
    s.add_artifact("", String::new());
    assert_eq!(s.pre_subgraph_artifacts[0].name, "");
    s.add_artifact("dir/..", String::new());
    assert_eq!(s.pre_subgraph_artifacts[1].name, "dir/..");
}

#[test]
fn dynamo_artifacts_are_filtered_by_prefix() {
    let mut s = VllmState::new();
    for p in [
        "x/dynamo_side_effects_1.txt",
        "x/inductor_post_grad_graph.txt",
        "x/dynamo_output_graph.txt",
        "x/dynamo_cpp_guards_str_0.txt",
        "x/compilation_metrics_4.html",
        "x/my_dynamo_output_graph.txt",
    ] {
        s.add_artifact(p, String::new());
    }
    let names: Vec<String> = s.build_dynamo_artifacts().into_iter().map(|a| a.name).collect();
    assert_eq!(
        names,
        vec!["dynamo_side_effects_1", "dynamo_output_graph", "dynamo_cpp_guards_str_0", "compilation_metrics_4"]
    );
}

#[test]
fn groups_follow_first_appearance_of_each_range() {
    let mut s = VllmState::new();
    s.subgraphs.push(subgraph(0, Some("submod_0"), 1, 8, false));
    s.subgraphs.push(subgraph(1, None, 4, 4, true));
    let mut third = subgraph(2, Some("submod_2"), 1, 8, false);
    third.artifacts.push(ArtifactInfo { name: "a".into(), url: "u/a.txt".into(), suffix: "".into() });
    third.artifacts.push(ArtifactInfo { name: "b".into(), url: "u/b.txt".into(), suffix: "s".into() });
    s.subgraphs.push(third);
    let groups = s.build_compile_range_groups();
    assert_eq!(groups.len(), 2);
    assert_eq!(groups[0].size_or_range, "range [1, 8]");
    assert_eq!(groups[0].submod_count, 2);
    assert_eq!(groups[0].submods[0].submod_name, "submod_0");
    assert_eq!(groups[0].submods[0].artifact_count, 0);
    assert_eq!(groups[0].submods[1].submod_name, "submod_2");
    assert_eq!(groups[0].submods[1].artifact_count, 2);
    assert_eq!(groups[0].submods[1].artifacts[1].url, "u/b.txt");
    assert_eq!(groups[1].size_or_range, "size 4");
    assert_eq!(groups[1].submod_count, 1);
    assert_eq!(groups[1].submods[0].submod_name, "subgraph_1");
}

#[test]
fn no_subgraphs_no_groups() {
    assert!(VllmState::new().build_compile_range_groups().is_empty());
}

#[test]
fn normalize_fills_split_points_from_endpoints() {
    let mut c = VllmCompilationConfig::default();
    c.compile_ranges_endpoints = Some("[1, 8]".to_string());
    let n = normalize_config(&c);
    assert_eq!(n.compile_ranges_split_points.as_deref(), Some("[1, 8]"));
    c.compile_ranges_split_points = Some("[2]".to_string());
    let n = normalize_config(&c);
    assert_eq!(n.compile_ranges_split_points.as_deref(), Some("[2]"));
    let n2 = normalize_config(&n);
    assert_eq!(n2.compile_ranges_split_points, n.compile_ranges_split_points);
}

#[test]
fn summary_context_collects_the_state() {
    let mut s = VllmState::new();
    let ctx = s.summary_context("<script></script>", "<b>hi</b>");
    assert!(!ctx.has_config);
    assert!(ctx.config.model.is_none());
    assert!(!ctx.has_dynamo_artifacts);
    assert!(!ctx.has_piecewise);
    assert!(ctx.compile_range_groups.is_empty());
    assert_eq!(ctx.qps, "<script></script>");
    assert_eq!(ctx.custom_header_html, "<b>hi</b>");
    assert_eq!(ctx.css, tlparse_vllm::templates::VLLM_CSS);

    let mut c = VllmCompilationConfig::default();
    c.model = Some("llama".to_string());
    c.compile_ranges_endpoints = Some("[1]".to_string());
    s.config = Some(c);
    s.add_artifact("d/dynamo_output_graph.txt", String::new());
    s.add_artifact("d/vllm_piecewise_split_graph.txt", String::new());
    s.subgraphs.push(subgraph(0, None, 2, 2, true));
    let ctx = s.summary_context("", "");
    assert!(ctx.has_config);
    assert_eq!(ctx.config.model.as_deref(), Some("llama"));
    assert_eq!(ctx.config.compile_ranges_split_points.as_deref(), Some("[1]"));
    assert!(ctx.has_dynamo_artifacts);
    assert_eq!(ctx.dynamo_artifacts.len(), 1);
    assert!(ctx.has_piecewise);
    assert_eq!(ctx.piecewise_graph_file.as_deref(), Some("d/vllm_piecewise_split_graph.txt"));
    assert_eq!(ctx.compile_range_groups.len(), 1);
    assert_eq!(ctx.compile_range_groups[0].size_or_range, "size 2");
}

#[test]
fn single_size_and_one_point_range_are_different_groups() {
    let mut s = VllmState::new();
    s.subgraphs.push(subgraph(0, None, 8, 8, true));
    s.subgraphs.push(subgraph(1, None, 8, 8, false));
    s.subgraphs.push(subgraph(2, None, 8, 99, true));
    let groups = s.build_compile_range_groups();
    assert_eq!(groups.len(), 2);
    assert_eq!(groups[0].size_or_range, "size 8");
    assert_eq!(groups[0].submod_count, 2);
    assert_eq!(groups[1].size_or_range, "range [8, 8]");
    let total: usize = groups.iter().map(|g| g.submod_count).sum();
    assert_eq!(total, s.subgraphs.len());
}
