use tlparse_vllm::parsers::{
    reformat_json_payload, vllm_parsers_with_state, LogEntry, Metadata, ParserOutput,
    VllmCompilationConfigParser, VllmError, VllmParser, VllmPiecewiseCompileParser,
    VllmPiecewiseSplitGraphParser, VllmPostGradPassDiffParser,
};
use tlparse_vllm::state::VllmState;
use tlparse_vllm::types::{VllmCompilationConfig, VllmSubgraphInfo};

fn entry(artifact: Option<&str>, graph_dump: Option<&str>) -> LogEntry {
    LogEntry { artifact: artifact.map(|s| s.to_string()), graph_dump: graph_dump.map(|s| s.to_string()) }
}

fn file_names(out: &[ParserOutput]) -> Vec<String> {
    out.iter()
        .map(|o| match o {
            ParserOutput::PayloadFile(f) => format!("payload:{f}"),
            ParserOutput::PayloadReformatFile(f) => format!("reformat:{f}"),
            ParserOutput::GlobalFile(f, _) => format!("global:{f}"),
        })
        .collect()
}

#[test]
fn parser_names() {
    assert_eq!(VllmCompilationConfigParser::new().name(), "vllm_compilation_config");
    assert_eq!(VllmPiecewiseCompileParser::new().name(), "vllm_piecewise_compile");
    assert_eq!(VllmPiecewiseSplitGraphParser::new().name(), "vllm_piecewise_split_graph");
    assert_eq!(VllmPostGradPassDiffParser::new().name(), "vllm_post_grad_pass_diff");
}

#[test]
fn parsers_come_in_order() {
    let ps = vllm_parsers_with_state();
    assert_eq!(ps.len(), 4);
    assert!(matches!(ps[0], VllmParser::CompilationConfig(_)));
    assert!(matches!(ps[1], VllmParser::PiecewiseSplitGraph(_)));
    assert!(matches!(ps[2], VllmParser::PiecewiseCompile(_)));
    assert!(matches!(&ps[3], VllmParser::PostGradPassDiff(p) if p.previous_payload.is_none()));
}

#[test]
fn config_parser_claims_only_its_artifact() {
    let p = VllmCompilationConfigParser::new();
    assert!(matches!(p.get_metadata(&entry(Some("vllm_compilation_config"), None)), Some(Metadata::Artifact(n)) if n == "vllm_compilation_config"));
    assert!(p.get_metadata(&entry(Some("vllm_compilation_config_x"), None)).is_none());
    assert!(p.get_metadata(&entry(None, Some("vllm_compilation_config"))).is_none());
}

#[test]
fn config_parser_records_the_configuration() {
    let p = VllmCompilationConfigParser::new();
    let mut s = VllmState::new();
    let out = p.parse(&mut s, None);
    assert_eq!(file_names(&out), vec!["reformat:vllm_compilation_config.json"]);
    assert!(!s.has_artifacts());
    assert!(s.config.is_none());
    let mut c = VllmCompilationConfig::default();
    c.backend = Some("inductor".to_string());
    let out = p.parse(&mut s, Some(c));
    assert_eq!(file_names(&out), vec!["reformat:vllm_compilation_config.json"]);
    assert!(s.has_artifacts());
    assert_eq!(s.config.as_ref().unwrap().backend.as_deref(), Some("inductor"));
}

#[test]
fn piecewise_parser_claims_starts_and_subgraph_dumps() {
    let p = VllmPiecewiseCompileParser::new();
    assert!(matches!(p.get_metadata(&entry(Some("vllm_piecewise_compile_start"), None)), Some(Metadata::Artifact(_))));
    assert!(matches!(p.get_metadata(&entry(Some("other"), Some("vllm_submod_3"))), Some(Metadata::GraphDump(n)) if n == "vllm_submod_3"));
    assert!(matches!(p.get_metadata(&entry(None, Some("vllm_subgraph_0"))), Some(Metadata::GraphDump(_))));
    assert!(p.get_metadata(&entry(None, Some("vllm_sub"))).is_none());
    assert!(p.get_metadata(&entry(None, None)).is_none());
}

#[test]
fn piecewise_parser_opens_subgraphs_and_writes_dumps() {
    let p = VllmPiecewiseCompileParser::new();
    let mut s = VllmState::new();
    let sg = VllmSubgraphInfo {
        index: 0,
        submod_name: Some("submod_0".into()),
        compile_range_start: 1,
        compile_range_end: 16,
        is_single_size: false,
        is_cudagraph_size: true,
        artifacts: Vec::new(),
    };
    let out = p.parse(&mut s, &Metadata::Artifact("vllm_piecewise_compile_start".into()), Some(sg));
    assert!(out.is_empty());
    assert!(s.has_artifacts());
    assert_eq!(s.subgraphs.len(), 1);
    let out = p.parse(&mut s, &Metadata::Artifact("vllm_piecewise_compile_start".into()), None);
    assert!(out.is_empty());
    assert_eq!(s.subgraphs.len(), 1);
    let out = p.parse(&mut s, &Metadata::GraphDump("vllm_submod_0".into()), None);
    assert_eq!(file_names(&out), vec!["payload:vllm_submod_0.txt"]);
    s.add_artifact("d/vllm_submod_0.txt", String::new());
    assert_eq!(s.subgraphs[0].artifacts.len(), 1);
    assert!(p.parse(&mut s, &Metadata::Other, None).is_empty());
}

#[test]
fn split_graph_parser() {
    let p = VllmPiecewiseSplitGraphParser::new();
    assert!(matches!(p.get_metadata(&entry(None, Some("vllm_piecewise_split_graph"))), Some(Metadata::GraphDump(_))));
    assert!(p.get_metadata(&entry(Some("vllm_piecewise_split_graph"), None)).is_none());
    let mut s = VllmState::new();
    let out = p.parse(&mut s);
    assert_eq!(file_names(&out), vec!["payload:vllm_piecewise_split_graph.txt"]);
    assert!(s.has_artifacts());
}

#[test]
fn post_grad_parser_claims_passes_and_baseline() {
    let p = VllmPostGradPassDiffParser::new();
    assert!(matches!(p.get_metadata(&entry(Some("before_post_grad_graph"), Some("vllm_post_grad.0.P"))), Some(Metadata::GraphDump(_))));
    assert!(matches!(p.get_metadata(&entry(Some("before_post_grad_graph"), Some("x"))), Some(Metadata::Artifact(_))));
    assert!(p.get_metadata(&entry(Some("after_post_grad_graph"), Some("vllm_post_grad"))).is_none());
}

#[test]
fn first_pass_without_baseline_writes_only_its_dump() {
    let mut p = VllmPostGradPassDiffParser::new();
    let mut s = VllmState::new();
    let out = p.parse(&mut s, &Metadata::GraphDump("vllm_post_grad.0.FusionPass".into()), "g1\n", "").unwrap();
    assert_eq!(file_names(&out), vec!["payload:vllm_post_grad.0.FusionPass.txt"]);
    assert!(s.has_artifacts());
    assert_eq!(p.previous_payload.as_deref(), Some("g1\n"));
}

#[test]
fn each_pass_is_diffed_against_the_previous_one() {
    let mut p = VllmPostGradPassDiffParser::new();
    let mut s = VllmState::new();
    let out = p.parse(&mut s, &Metadata::Artifact("before_post_grad_graph".into()), "g0\n", "Q").unwrap();
    assert!(out.is_empty());
    assert!(!s.has_artifacts());
    assert_eq!(p.previous_payload.as_deref(), Some("g0\n"));

    let out = p.parse(&mut s, &Metadata::GraphDump("vllm_post_grad.0.FusionPass".into()), "g1\n", "<script>q()</script>").unwrap();
    assert_eq!(
        file_names(&out),
        vec!["payload:vllm_post_grad.0.FusionPass.txt", "global:vllm_post_grad.0.FusionPass.diff.html"]
    );
    let page = match &out[1] {
        ParserOutput::GlobalFile(_, c) => c.clone(),
        _ => unreachable!(),
    };
    assert!(page.contains("<title>Pass Diff: 0.FusionPass</title>"));
    assert!(page.contains(&VllmPostGradPassDiffParser::generate_diff_html("g0\n", "g1\n")));
    assert!(page.contains("<script>q()</script>"));
    assert!(page.contains("font-family: Arial, sans-serif;"));

    let out = p.parse(&mut s, &Metadata::GraphDump("vllm_post_grad.1.Other".into()), "g1\n", "").unwrap();
    let page = match &out[1] {
        ParserOutput::GlobalFile(f, c) => {
            assert_eq!(f, "vllm_post_grad.1.Other.diff.html");
            c.clone()
        }
        _ => unreachable!(),
    };
    assert!(page.contains("(no changes)"));
    assert_eq!(p.previous_payload.as_deref(), Some("g1\n"));
}

#[test]
fn pass_name_is_escaped_in_the_page() {
    let mut p = VllmPostGradPassDiffParser::new();
    p.previous_payload = Some("a\n".into());
    let mut s = VllmState::new();
    let out = p.parse(&mut s, &Metadata::GraphDump("vllm_post_grad.<x>".into()), "b\n", "").unwrap();
    match &out[1] {
        ParserOutput::GlobalFile(f, c) => {
            assert_eq!(f, "vllm_post_grad.<x>.diff.html");
            assert!(c.contains("<title>Pass Diff: &lt;x&gt;</title>"));
        }
        _ => unreachable!(),
    }
}

#[test]
fn other_entries_change_nothing() {
    let mut p = VllmPostGradPassDiffParser::new();
    let mut s = VllmState::new();
    assert!(p.parse(&mut s, &Metadata::Artifact("something_else".into()), "x", "").unwrap().is_empty());
    assert!(p.parse(&mut s, &Metadata::Other, "x", "").unwrap().is_empty());
    assert!(p.previous_payload.is_none());
    assert!(!s.has_artifacts());
}

#[test]
fn json_payload_is_reindented() {
    assert_eq!(reformat_json_payload("{\"a\":[1,2]}").unwrap(), "{\n  \"a\": [\n    1,\n    2\n  ]\n}");
    assert_eq!(reformat_json_payload("not json"), Err(VllmError::InvalidJson));
}

#[test]
fn parser_set_dispatches_by_kind() {
    let ps = vllm_parsers_with_state();
    let names: Vec<&str> = ps.iter().map(|p| p.name()).collect();
    assert_eq!(
        names,
        vec!["vllm_compilation_config", "vllm_piecewise_split_graph", "vllm_piecewise_compile", "vllm_post_grad_pass_diff"]
    );
    let e = entry(Some("before_post_grad_graph"), Some("vllm_piecewise_split_graph"));
    let claimed: Vec<bool> = ps.iter().map(|p| p.get_metadata(&e).is_some()).collect();
    assert_eq!(claimed, vec![false, true, false, true]);
}

#[test]
fn vllm_flag_rises_once_and_stays_raised() {
    let mut s = VllmState::new();
    s.add_artifact("dynamo_output_graph.txt", String::new());
    assert!(!s.has_artifacts());
    let mut post = VllmPostGradPassDiffParser::new();
    post.parse(&mut s, &Metadata::Artifact("before_post_grad_graph".into()), "g0\n", "").unwrap();
    assert!(!s.has_artifacts());
    VllmCompilationConfigParser::new().parse(&mut s, None);
    assert!(!s.has_artifacts());
    VllmPiecewiseSplitGraphParser::new().parse(&mut s);
    assert!(s.has_artifacts());
    s.add_artifact("other.txt", String::new());
    VllmCompilationConfigParser::new().parse(&mut s, None);
    post.parse(&mut s, &Metadata::Other, "x", "").unwrap();
    assert!(s.has_artifacts());
}

#[test]
fn different_texts_give_a_table() {
    let html = VllmPostGradPassDiffParser::generate_diff_html("a\nb\n", "a\nc\n");
    assert!(html.starts_with("<div class=\"diff-wrapper\"><table class=\"diff-table\">"));
    assert!(html.ends_with("</table></div>\n"));
    assert!(!html.contains("(no changes)"));
}

fn page_of(out: &[ParserOutput]) -> String {
    match &out[1] {
        ParserOutput::GlobalFile(_, c) => c.clone(),
        _ => unreachable!(),
    }
}

#[test]
fn baseline_is_the_latest_pass_or_baseline_artifact() {
    let mut p = VllmPostGradPassDiffParser::new();
    let mut s = VllmState::new();
    p.parse(&mut s, &Metadata::Artifact("before_post_grad_graph".into()), "g0\n", "").unwrap();
    p.parse(&mut s, &Metadata::Artifact("something_else".into()), "zz\n", "").unwrap();
    p.parse(&mut s, &Metadata::Other, "yy\n", "").unwrap();
    let out = p.parse(&mut s, &Metadata::GraphDump("vllm_post_grad.0.A".into()), "g1\n", "").unwrap();
    assert!(page_of(&out).contains(&VllmPostGradPassDiffParser::generate_diff_html("g0\n", "g1\n")));
    let out = p.parse(&mut s, &Metadata::GraphDump("vllm_post_grad.1.B".into()), "g2\n", "").unwrap();
    assert!(page_of(&out).contains(&VllmPostGradPassDiffParser::generate_diff_html("g1\n", "g2\n")));
    p.parse(&mut s, &Metadata::Artifact("before_post_grad_graph".into()), "h0\n", "").unwrap();
    let out = p.parse(&mut s, &Metadata::GraphDump("vllm_post_grad.0.A".into()), "h1\n", "").unwrap();
    assert!(page_of(&out).contains(&VllmPostGradPassDiffParser::generate_diff_html("h0\n", "h1\n")));
}
