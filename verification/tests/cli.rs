use tlparse_vllm::cli::{
    rank_dir_name, response_status,
    content_type_for_extension, guess_content_type, output_directory_plan, rank_labels,
    rank_of_log_file_name, request_file_path, sort_ranks, urlencoding_decode, Cli, CliError,
};

fn cli() -> Cli {
    Cli {
        path: "log.txt".into(),
        latest: false,
        out: "tl_out".into(),
        overwrite: false,
        strict: false,
        strict_compile_id: false,
        no_browser: false,
        custom_header_html: String::new(),
        verbose: false,
        plain_text: false,
        export: false,
        inductor_provenance: false,
        all_ranks_html: false,
        serve: false,
        port: None,
    }
}

#[test]
fn latest_and_all_ranks_are_exclusive() {
    let mut c = cli();
    assert_eq!(c.check_flags(), Ok(()));
    c.latest = true;
    assert_eq!(c.check_flags(), Ok(()));
    c.all_ranks_html = true;
    assert_eq!(c.check_flags(), Err(CliError::LatestWithAllRanks));
    c.latest = false;
    assert_eq!(c.check_flags(), Ok(()));
}

#[test]
fn serve_implies_no_browser() {
    let mut c = cli();
    assert!(c.open_browser());
    c.serve = true;
    assert!(!c.open_browser());
    c.serve = false;
    c.no_browser = true;
    assert!(!c.open_browser());
}

#[test]
fn output_directory_plans() {
    assert_eq!(output_directory_plan(false, false), Ok(false));
    assert_eq!(output_directory_plan(false, true), Ok(false));
    assert_eq!(output_directory_plan(true, true), Ok(true));
    assert_eq!(output_directory_plan(true, false), Err(CliError::OutputExists));
}

#[test]
fn url_decoding() {
    assert_eq!(urlencoding_decode("a%20b"), "a b");
    assert_eq!(urlencoding_decode("a+b"), "a b");
    assert_eq!(urlencoding_decode("plain/path.html"), "plain/path.html");
    assert_eq!(urlencoding_decode("%41%62"), "Ab");
    assert_eq!(urlencoding_decode("%e9"), "\u{e9}");
    assert_eq!(urlencoding_decode("%zz1"), "%zz1");
    assert_eq!(urlencoding_decode("%%41"), "%%41");
    assert_eq!(urlencoding_decode("%4"), "%4");
    assert_eq!(urlencoding_decode("%"), "%");
    assert_eq!(urlencoding_decode("x%+5y"), "x\u{5}y");
    assert_eq!(urlencoding_decode("%-5"), "%-5");
    assert_eq!(urlencoding_decode("%\u{e9}a"), "%\u{e9}a");
    assert_eq!(urlencoding_decode("%2+"), "%2+");
    assert_eq!(urlencoding_decode(""), "");
}

#[test]
fn requested_paths() {
    assert_eq!(request_file_path("/"), "index.html");
    assert_eq!(request_file_path(""), "index.html");
    assert_eq!(request_file_path("//a%20b/c.html"), "a b/c.html");
    assert_eq!(request_file_path("/rank_0/index.html"), "rank_0/index.html");
}

#[test]
fn content_types() {
    assert_eq!(guess_content_type("out/index.html"), "text/html; charset=utf-8");
    assert_eq!(guess_content_type("out/INDEX.HTM"), "text/html; charset=utf-8");
    assert_eq!(guess_content_type("a.css"), "text/css; charset=utf-8");
    assert_eq!(guess_content_type("a.js"), "application/javascript; charset=utf-8");
    assert_eq!(guess_content_type("a.Json"), "application/json; charset=utf-8");
    assert_eq!(guess_content_type("a.png"), "image/png");
    assert_eq!(guess_content_type("a.jpg"), "image/jpeg");
    assert_eq!(guess_content_type("a.JPEG"), "image/jpeg");
    assert_eq!(guess_content_type("a.gif"), "image/gif");
    assert_eq!(guess_content_type("a.svg"), "image/svg+xml");
    assert_eq!(guess_content_type("a.txt"), "text/plain; charset=utf-8");
    assert_eq!(guess_content_type("a.PY"), "text/x-python; charset=utf-8");
    assert_eq!(guess_content_type("a.tar.gz"), "application/octet-stream");
    assert_eq!(guess_content_type("noext"), "application/octet-stream");
    assert_eq!(guess_content_type(".bashrc"), "application/octet-stream");
    assert_eq!(content_type_for_extension(""), "application/octet-stream");
    assert_eq!(content_type_for_extension("CsS"), "text/css; charset=utf-8");
}

#[test]
fn ranks_from_file_names() {
    assert_eq!(rank_of_log_file_name("dedicated_log_torch_trace_rank_3.log"), Some(3));
    assert_eq!(rank_of_log_file_name("dedicated_log_torch_trace_rank_12_abc.log"), Some(12));
    assert_eq!(rank_of_log_file_name("dedicated_log_torch_trace_rank_0_1_2.log"), Some(0));
    assert_eq!(rank_of_log_file_name("dedicated_log_torch_trace_rank_+7.log"), Some(7));
    assert_eq!(rank_of_log_file_name("dedicated_log_torch_trace_rank_4294967295.log"), Some(u32::MAX));
    assert_eq!(rank_of_log_file_name("dedicated_log_torch_trace_rank_4294967296.log"), None);
    assert_eq!(rank_of_log_file_name("dedicated_log_torch_trace_rank_.log"), None);
    assert_eq!(rank_of_log_file_name("dedicated_log_torch_trace_rank__3.log"), None);
    assert_eq!(rank_of_log_file_name("dedicated_log_torch_trace_rank_3x.log"), None);
    assert_eq!(rank_of_log_file_name("dedicated_log_torch_trace_rank_-3.log"), None);
    assert_eq!(rank_of_log_file_name("dedicated_log_torch_trace_rank_3.txt"), None);
    assert_eq!(rank_of_log_file_name("dedicated_log_torch_trace_rank_3"), None);
    assert_eq!(rank_of_log_file_name("other_rank_3.log"), None);
}

#[test]
fn ranks_are_sorted_numerically() {
    let mut ranks = vec![10, 2, 1, 2, 0];
    sort_ranks(&mut ranks);
    assert_eq!(ranks, vec![0, 1, 2, 2, 10]);
    assert_eq!(rank_labels(&ranks), vec!["0", "1", "2", "2", "10"]);
    let mut empty: Vec<u32> = Vec::new();
    sort_ranks(&mut empty);
    assert!(empty.is_empty());
}

#[test]
fn rank_directories_are_named_by_rank() {
    assert_eq!(rank_dir_name(0), "rank_0");
    assert_eq!(rank_dir_name(12), "rank_12");
}

#[test]
fn server_status_codes() {
    assert_eq!(response_status(true, true, true, true), 200);
    assert_eq!(response_status(true, true, true, false), 500);
    assert_eq!(response_status(true, true, false, false), 404);
    assert_eq!(response_status(true, false, false, false), 404);
    assert_eq!(response_status(false, false, false, false), 404);
}
