//! The four structured-log parsers of the vLLM view: what each one picks out
//! of the log, what it records in the shared [`VllmState`], and which files it
//! asks to be written.

use vstd::prelude::*;

use crate::diff::{diff_table, hunks_body, line_diff, render_diff_table};
use crate::state::VllmState;
use crate::templates::{VLLM_CSS, VLLM_DIFF_TEMPLATE};
use crate::text::{has_prefix, push_str, starts_with, str_equal};
use crate::types::{VllmCompilationConfig, VllmSubgraphInfo};

verus! {

/// What the parsers read of one structured-log entry: the name of the
/// artifact it carries and the name of the graph dump it carries, if any.
#[derive(Debug)]
pub struct LogEntry {
    pub artifact: Option<String>,
    pub graph_dump: Option<String>,
}

/// The part of an entry a parser claims, with the claimed item's name.
#[derive(Debug)]
pub enum Metadata {
    Artifact(String),
    GraphDump(String),
    /// Any other kind of entry; the vLLM parsers produce nothing for it.
    Other,
}

/// A file a parser asks to be written next to the entry's other outputs.
#[derive(Debug)]
pub enum ParserOutput {
    /// The entry's payload, verbatim, under this file name.
    PayloadFile(String),
    /// The entry's payload re-indented as JSON (see `reformat_json_payload`),
    /// under this file name.
    PayloadReformatFile(String),
    /// A file with this name and this content.
    GlobalFile(String, String),
}

/// Why a parser or a reformatting failed.
#[derive(Debug, PartialEq, Eq, Structural)]
pub enum VllmError {
    /// The pass diff page could not be rendered from its template.
    TemplateRender,
    /// The payload is not JSON.
    InvalidJson,
}

pub enum MetadataView {
    Artifact(Seq<char>),
    GraphDump(Seq<char>),
    Other,
}

pub enum OutputView {
    PayloadFile(Seq<char>),
    PayloadReformatFile(Seq<char>),
    GlobalFile(Seq<char>, Seq<char>),
}

impl View for Metadata {
    type V = MetadataView;

    open spec fn view(&self) -> MetadataView {
        match self {
            Metadata::Artifact(n) => MetadataView::Artifact(n@),
            Metadata::GraphDump(n) => MetadataView::GraphDump(n@),
            Metadata::Other => MetadataView::Other,
        }
    }
}

impl View for ParserOutput {
    type V = OutputView;

    open spec fn view(&self) -> OutputView {
        match self {
            ParserOutput::PayloadFile(f) => OutputView::PayloadFile(f@),
            ParserOutput::PayloadReformatFile(f) => OutputView::PayloadReformatFile(f@),
            ParserOutput::GlobalFile(f, c) => OutputView::GlobalFile(f@, c@),
        }
    }
}

pub open spec fn outputs_view(v: Seq<ParserOutput>) -> Seq<OutputView> {
    v.map_values(|o: ParserOutput| o@)
}

pub open spec fn meta_view(m: Option<Metadata>) -> Option<MetadataView> {
    match m {
        Some(x) => Some(x@),
        None => None,
    }
}

pub open spec fn opt_view(o: Option<String>) -> Option<Seq<char>> {
    match o {
        Some(s) => Some(s@),
        None => None,
    }
}

/// `t` is `s` with the vLLM flag raised and nothing else changed.
pub open spec fn flag_raised(s: VllmState, t: VllmState) -> bool {
    &&& t.config == s.config
    &&& t.piecewise_graph_file == s.piecewise_graph_file
    &&& t.subgraphs@ == s.subgraphs@
    &&& t.pre_subgraph_artifacts@ == s.pre_subgraph_artifacts@
    &&& t.has_vllm_artifacts
}

/// One call that may touch the vLLM flag of a [`VllmState`], with what the
/// flag's change depends on.
pub enum VllmCall {
    /// A compilation-config parse; `config_read` says whether the payload
    /// was read as a configuration.
    CompilationConfig { config_read: bool },
    PiecewiseSplitGraph,
    PiecewiseCompile,
    PostGradPassDiff { metadata: MetadataView },
    /// [`VllmState::add_artifact`].
    AddArtifact,
}

/// Whether the call raises the vLLM flag.
pub open spec fn raises_flag(c: VllmCall) -> bool {
    match c {
        VllmCall::CompilationConfig { config_read } => config_read,
        VllmCall::PiecewiseSplitGraph => true,
        VllmCall::PiecewiseCompile => true,
        VllmCall::PostGradPassDiff { metadata } => metadata is GraphDump,
        VllmCall::AddArtifact => false,
    }
}

/// The flag after a sequence of calls, starting from `init`.
pub open spec fn flag_after(init: bool, calls: Seq<VllmCall>) -> bool
    decreases calls.len(),
{
    if calls.len() == 0 {
        init
    } else {
        flag_after(init, calls.drop_last()) || raises_flag(calls.last())
    }
}

/// The vLLM flag is set after a sequence of calls exactly when it was set
/// before them or one of them raises it; in particular a fresh state has it
/// exactly when some call raised it.
pub proof fn law_flag_set_iff_some_call_raises(init: bool, calls: Seq<VllmCall>)
    ensures
        flag_after(init, calls) <==> (init || exists|i: int| 0 <= i < calls.len() && #[trigger] raises_flag(calls[i])),
    decreases calls.len(),
{
    if calls.len() > 0 {
        let prev = calls.drop_last();
        law_flag_set_iff_some_call_raises(init, prev);
        if exists|i: int| 0 <= i < prev.len() && #[trigger] raises_flag(prev[i]) {
            let i = choose|i: int| 0 <= i < prev.len() && #[trigger] raises_flag(prev[i]);
            assert(raises_flag(calls[i]));
        }
        if exists|i: int| 0 <= i < calls.len() && #[trigger] raises_flag(calls[i]) {
            let i = choose|i: int| 0 <= i < calls.len() && #[trigger] raises_flag(calls[i]);
            if i < prev.len() {
                assert(raises_flag(prev[i]));
            }
        }
    }
}

/// Appending a call to a sequence changes the flag as the call's own contract
/// says: after a run of calls whose flags so far equal `flag_after(init, calls)`,
/// a call `c` whose `ensures` gives `old || raises_flag(c)` leaves
/// `flag_after(init, calls.push(c))`.
pub proof fn law_flag_step(init: bool, calls: Seq<VllmCall>, c: VllmCall)
    ensures
        flag_after(init, calls.push(c)) == (flag_after(init, calls) || raises_flag(c)),
{
    assert(calls.push(c).drop_last() =~= calls);
}

/// Once set, the vLLM flag stays set whatever calls follow.
pub proof fn law_flag_never_falls(init: bool, calls: Seq<VllmCall>, more: Seq<VllmCall>)
    requires
        flag_after(init, calls),
    ensures
        flag_after(init, calls + more),
    decreases more.len(),
{
    if more.len() > 0 {
        law_flag_never_falls(init, calls, more.drop_last());
        assert((calls + more).drop_last() =~= calls + more.drop_last());
    }
}

/// A `String` holding `a` followed by `b`.
fn concat(a: &str, b: &str) -> (s: String)
    ensures
        s@ == a@ + b@,
{
    let mut s = String::from_str(a);
    push_str(&mut s, b);
    s
}

// ---------------------------------------------------------------------------
// vllm_compilation_config

/// Claims `vllm_compilation_config` artifacts; records the configuration for
/// the summary page and asks for the payload as an indented JSON file.
#[derive(Debug)]
pub struct VllmCompilationConfigParser {}

pub open spec fn config_metadata(artifact: Option<Seq<char>>) -> Option<MetadataView> {
    match artifact {
        Some(a) => if a == "vllm_compilation_config"@ {
            Some(MetadataView::Artifact(a))
        } else {
            None
        },
        None => None,
    }
}

impl VllmCompilationConfigParser {
    pub fn new() -> Self {
        VllmCompilationConfigParser {  }
    }

    pub fn name(&self) -> (n: &'static str)
        ensures
            n@ == "vllm_compilation_config"@,
    {
        "vllm_compilation_config"
    }

    pub fn get_metadata(&self, e: &LogEntry) -> (m: Option<Metadata>)
        ensures
            meta_view(m) == config_metadata(opt_view(e.artifact)),
    {
        if let Some(a) = &e.artifact {
            if str_equal(a.as_str(), "vllm_compilation_config") {
                return Some(Metadata::Artifact(a.clone()));
            }
        }
        None
    }

    /// `config` is the payload read as a configuration, `None` when it is not
    /// one. A configuration is recorded and raises the vLLM flag; either way
    /// the payload is asked for as `vllm_compilation_config.json`, indented.
    pub fn parse(&self, state: &mut VllmState, config: Option<VllmCompilationConfig>) -> (out: Vec<
        ParserOutput,
    >)
        ensures
            outputs_view(out@) == seq![OutputView::PayloadReformatFile("vllm_compilation_config.json"@)],
            final(state).has_vllm_artifacts == (old(state).has_vllm_artifacts || raises_flag(
                (VllmCall::CompilationConfig { config_read: config is Some }),
            )),
            config is Some ==> {
                &&& final(state).config == config
                &&& final(state).has_vllm_artifacts
                &&& final(state).piecewise_graph_file == old(state).piecewise_graph_file
                &&& final(state).subgraphs@ == old(state).subgraphs@
                &&& final(state).pre_subgraph_artifacts@ == old(state).pre_subgraph_artifacts@
            },
            config is None ==> *final(state) == *old(state),
    {
        if config.is_some() {
            state.config = config;
            state.has_vllm_artifacts = true;
        }
        let mut out: Vec<ParserOutput> = Vec::new();
        out.push(ParserOutput::PayloadReformatFile(String::from_str("vllm_compilation_config.json")));
        assert(outputs_view(out@) =~= seq![OutputView::PayloadReformatFile("vllm_compilation_config.json"@)]);
        out
    }
}

// ---------------------------------------------------------------------------
// vllm_piecewise_compile

/// Claims `vllm_piecewise_compile_start` artifacts, which open a new subgraph
/// (later artifacts attach to it), and the `vllm_subgraph_*` / `vllm_submod_*`
/// graph dumps, which are written out as text files.
#[derive(Debug)]
pub struct VllmPiecewiseCompileParser {}

pub open spec fn piecewise_compile_metadata(artifact: Option<Seq<char>>, graph_dump: Option<
    Seq<char>,
>) -> Option<MetadataView> {
    if artifact matches Some(a) && a == "vllm_piecewise_compile_start"@ {
        Some(MetadataView::Artifact(artifact->0))
    } else if graph_dump matches Some(g) && (has_prefix(g, "vllm_subgraph_"@) || has_prefix(
        g,
        "vllm_submod_"@,
    )) {
        Some(MetadataView::GraphDump(graph_dump->0))
    } else {
        None
    }
}

impl VllmPiecewiseCompileParser {
    pub fn new() -> Self {
        VllmPiecewiseCompileParser {  }
    }

    pub fn name(&self) -> (n: &'static str)
        ensures
            n@ == "vllm_piecewise_compile"@,
    {
        "vllm_piecewise_compile"
    }

    pub fn get_metadata(&self, e: &LogEntry) -> (m: Option<Metadata>)
        ensures
            meta_view(m) == piecewise_compile_metadata(opt_view(e.artifact), opt_view(e.graph_dump)),
    {
        if let Some(a) = &e.artifact {
            if str_equal(a.as_str(), "vllm_piecewise_compile_start") {
                return Some(Metadata::Artifact(a.clone()));
            }
        }
        if let Some(g) = &e.graph_dump {
            if starts_with(g.as_str(), "vllm_subgraph_") || starts_with(g.as_str(), "vllm_submod_") {
                return Some(Metadata::GraphDump(g.clone()));
            }
        }
        None
    }

    /// Raises the vLLM flag. For a compile-start artifact, `subgraph` is the
    /// payload read as subgraph information (`None` when it is not): it
    /// becomes the current subgraph and nothing is written. For a graph dump
    /// the payload is asked for as `<name>.txt`.
    pub fn parse(
        &self,
        state: &mut VllmState,
        metadata: &Metadata,
        subgraph: Option<VllmSubgraphInfo>,
    ) -> (out: Vec<ParserOutput>)
        ensures
            final(state).has_vllm_artifacts,
            final(state).has_vllm_artifacts == (old(state).has_vllm_artifacts || raises_flag(VllmCall::PiecewiseCompile)),
            final(state).config == old(state).config,
            final(state).piecewise_graph_file == old(state).piecewise_graph_file,
            final(state).pre_subgraph_artifacts@ == old(state).pre_subgraph_artifacts@,
            match metadata@ {
                MetadataView::Artifact(_) => {
                    &&& out@.len() == 0
                    &&& final(state).subgraphs@ == match subgraph {
                        Some(sg) => old(state).subgraphs@.push(sg),
                        None => old(state).subgraphs@,
                    }
                },
                MetadataView::GraphDump(name) => {
                    &&& outputs_view(out@) == seq![OutputView::PayloadFile(name + ".txt"@)]
                    &&& final(state).subgraphs@ == old(state).subgraphs@
                },
                MetadataView::Other => {
                    &&& out@.len() == 0
                    &&& final(state).subgraphs@ == old(state).subgraphs@
                },
            },
    {
        state.has_vllm_artifacts = true;
        let mut out: Vec<ParserOutput> = Vec::new();
        match metadata {
            Metadata::Artifact(_) => {
                if let Some(sg) = subgraph {
                    state.subgraphs.push(sg);
                }
            },
            Metadata::GraphDump(name) => {
                out.push(ParserOutput::PayloadFile(concat(name.as_str(), ".txt")));
                assert(outputs_view(out@) =~= seq![OutputView::PayloadFile(name@ + ".txt"@)]);
            },
            Metadata::Other => {},
        }
        out
    }
}

// ---------------------------------------------------------------------------
// vllm_piecewise_split_graph

/// Claims the `vllm_piecewise_split_graph` graph dump and writes it out.
#[derive(Debug)]
pub struct VllmPiecewiseSplitGraphParser {}

pub open spec fn split_graph_metadata(graph_dump: Option<Seq<char>>) -> Option<MetadataView> {
    match graph_dump {
        Some(g) => if g == "vllm_piecewise_split_graph"@ {
            Some(MetadataView::GraphDump(g))
        } else {
            None
        },
        None => None,
    }
}

impl VllmPiecewiseSplitGraphParser {
    pub fn new() -> Self {
        VllmPiecewiseSplitGraphParser {  }
    }

    pub fn name(&self) -> (n: &'static str)
        ensures
            n@ == "vllm_piecewise_split_graph"@,
    {
        "vllm_piecewise_split_graph"
    }

    pub fn get_metadata(&self, e: &LogEntry) -> (m: Option<Metadata>)
        ensures
            meta_view(m) == split_graph_metadata(opt_view(e.graph_dump)),
    {
        if let Some(g) = &e.graph_dump {
            if str_equal(g.as_str(), "vllm_piecewise_split_graph") {
                return Some(Metadata::GraphDump(g.clone()));
            }
        }
        None
    }

    /// Raises the vLLM flag and asks for the payload as
    /// `vllm_piecewise_split_graph.txt`.
    pub fn parse(&self, state: &mut VllmState) -> (out: Vec<ParserOutput>)
        ensures
            outputs_view(out@) == seq![OutputView::PayloadFile("vllm_piecewise_split_graph.txt"@)],
            flag_raised(*old(state), *final(state)),
            final(state).has_vllm_artifacts == (old(state).has_vllm_artifacts || raises_flag(VllmCall::PiecewiseSplitGraph)),
    {
        state.has_vllm_artifacts = true;
        let mut out: Vec<ParserOutput> = Vec::new();
        out.push(ParserOutput::PayloadFile(String::from_str("vllm_piecewise_split_graph.txt")));
        assert(outputs_view(out@) =~= seq![OutputView::PayloadFile("vllm_piecewise_split_graph.txt"@)]);
        out
    }
}

// ---------------------------------------------------------------------------
// vllm_post_grad pass diffs

/// Produces one diff page per post-grad pass. The `before_post_grad_graph`
/// artifact seeds the baseline; each `vllm_post_grad.<index>.<Pass>` graph
/// dump is written out, compared with the baseline on a side-by-side page,
/// and becomes the baseline of the next pass.
#[derive(Debug)]
pub struct VllmPostGradPassDiffParser {
    pub previous_payload: Option<String>,
}

pub open spec fn post_grad_metadata(artifact: Option<Seq<char>>, graph_dump: Option<Seq<char>>) -> Option<
    MetadataView,
> {
    if graph_dump matches Some(g) && has_prefix(g, "vllm_post_grad."@) {
        Some(MetadataView::GraphDump(graph_dump->0))
    } else if artifact matches Some(a) && a == "before_post_grad_graph"@ {
        Some(MetadataView::Artifact(artifact->0))
    } else {
        None
    }
}

/// The pass name of a `vllm_post_grad.<pass>` dump: the name without that prefix.
pub open spec fn pass_name_of(name: Seq<char>) -> Seq<char> {
    if has_prefix(name, "vllm_post_grad."@) {
        name.subrange("vllm_post_grad."@.len() as int, name.len() as int)
    } else {
        name
    }
}

/// The rendered diff page, as `tinytemplate` renders `template` with the
/// context `{css, pass_name, diff_html, qps}`; `None` when rendering fails.
/// Defined by the outside crate.
pub uninterp spec fn rendered_diff_page(
    template: Seq<char>,
    css: Seq<char>,
    pass_name: Seq<char>,
    diff_html: Seq<char>,
    qps: Seq<char>,
) -> Option<Seq<char>>;

/// The diff page of pass `name` from the old text `before` to the new text `after`.
pub open spec fn pass_diff_page(name: Seq<char>, before: Seq<char>, after: Seq<char>, qps: Seq<char>) -> Option<
    Seq<char>,
> {
    rendered_diff_page(
        VLLM_DIFF_TEMPLATE@,
        VLLM_CSS@,
        pass_name_of(name),
        diff_table(line_diff(before, after)),
        qps,
    )
}

/// The file name of the diff page of pass `name`.
pub open spec fn pass_diff_file(name: Seq<char>) -> Seq<char> {
    "vllm_post_grad."@ + pass_name_of(name) + ".diff.html"@
}

/// One call of the post-grad pass-diff parser, as far as its effect depends on it.
pub struct PostGradCall {
    pub metadata: MetadataView,
    pub payload: Seq<char>,
    pub qps: Seq<char>,
}

/// The call makes its payload the new baseline: the `before_post_grad_graph`
/// artifact always does, a pass dump does unless its diff page fails to render.
pub open spec fn resets_baseline(base: Option<Seq<char>>, c: PostGradCall) -> bool {
    match c.metadata {
        MetadataView::Artifact(a) => a == "before_post_grad_graph"@,
        MetadataView::Other => false,
        MetadataView::GraphDump(name) => match base {
            None => true,
            Some(b) => pass_diff_page(name, b, c.payload, c.qps) is Some,
        },
    }
}

/// The baseline after a call, from the baseline before it.
pub open spec fn post_grad_next_baseline(base: Option<Seq<char>>, c: PostGradCall) -> Option<Seq<char>> {
    if resets_baseline(base, c) {
        Some(c.payload)
    } else {
        base
    }
}

/// What a call returns, from the baseline before it.
pub open spec fn post_grad_result(base: Option<Seq<char>>, c: PostGradCall) -> Result<Seq<OutputView>, VllmError> {
    match c.metadata {
        MetadataView::GraphDump(name) => {
            let txt = OutputView::PayloadFile(name + ".txt"@);
            match base {
                None => Ok(seq![txt]),
                Some(b) => match pass_diff_page(name, b, c.payload, c.qps) {
                    Some(page) => Ok(seq![txt, OutputView::GlobalFile(pass_diff_file(name), page)]),
                    None => Err(VllmError::TemplateRender),
                },
            }
        },
        _ => Ok(seq![]),
    }
}

/// A parse result with its outputs taken by their views.
pub open spec fn result_view(r: Result<Vec<ParserOutput>, VllmError>) -> Result<Seq<OutputView>, VllmError> {
    match r {
        Ok(v) => Ok(outputs_view(v@)),
        Err(e) => Err(e),
    }
}

/// The baseline after a sequence of calls, starting from `init`.
pub open spec fn baseline_after(init: Option<Seq<char>>, calls: Seq<PostGradCall>) -> Option<Seq<char>>
    decreases calls.len(),
{
    if calls.len() == 0 {
        init
    } else {
        post_grad_next_baseline(baseline_after(init, calls.drop_last()), calls.last())
    }
}

/// Call `i` of the sequence makes its payload the baseline.
pub open spec fn resets_at(init: Option<Seq<char>>, calls: Seq<PostGradCall>, i: int) -> bool {
    resets_baseline(baseline_after(init, calls.take(i)), calls[i])
}

/// Appending a call to a sequence moves the baseline as the parser's own
/// contract says (`post_grad_next_baseline`), so a run of `parse` calls keeps
/// the parser's baseline equal to `baseline_after` of the calls made so far.
pub proof fn law_baseline_step(init: Option<Seq<char>>, calls: Seq<PostGradCall>, c: PostGradCall)
    ensures
        baseline_after(init, calls.push(c)) == post_grad_next_baseline(baseline_after(init, calls), c),
        resets_at(init, calls.push(c), calls.len() as int) == resets_baseline(baseline_after(init, calls), c),
{
    assert(calls.push(c).drop_last() =~= calls);
    assert(calls.push(c).take(calls.len() as int) =~= calls);
}

/// Whether call `i` resets the baseline does not depend on the calls after it.
proof fn lemma_resets_at_prefix(init: Option<Seq<char>>, calls: Seq<PostGradCall>, k: int, i: int)
    requires
        0 <= i < k <= calls.len(),
    ensures
        resets_at(init, calls.take(k), i) == resets_at(init, calls, i),
{
    assert(calls.take(k).take(i) =~= calls.take(i));
}

proof fn lemma_no_reset_keeps_baseline(init: Option<Seq<char>>, calls: Seq<PostGradCall>)
    requires
        forall|i: int| 0 <= i < calls.len() ==> !#[trigger] resets_at(init, calls, i),
    ensures
        baseline_after(init, calls) == init,
    decreases calls.len(),
{
    if calls.len() > 0 {
        let n = calls.len() - 1;
        let prev = calls.drop_last();
        assert(calls.take(n) =~= prev);
        assert(!resets_at(init, calls, n));
        assert forall|j: int| 0 <= j < prev.len() implies !#[trigger] resets_at(init, prev, j) by {
            lemma_resets_at_prefix(init, calls, n, j);
            assert(!resets_at(init, calls, j));
        }
        lemma_no_reset_keeps_baseline(init, prev);
    }
}

proof fn lemma_latest_reset_is_baseline(init: Option<Seq<char>>, calls: Seq<PostGradCall>, i: int)
    requires
        0 <= i < calls.len(),
        resets_at(init, calls, i),
        forall|j: int| i < j < calls.len() ==> !#[trigger] resets_at(init, calls, j),
    ensures
        baseline_after(init, calls) == Some(calls[i].payload),
    decreases calls.len(),
{
    let n = calls.len() - 1;
    let prev = calls.drop_last();
    assert(calls.take(n) =~= prev);
    if i < n {
        assert(!resets_at(init, calls, n));
        lemma_resets_at_prefix(init, calls, n, i);
        assert forall|j: int| i < j < prev.len() implies !#[trigger] resets_at(init, prev, j) by {
            lemma_resets_at_prefix(init, calls, n, j);
            assert(!resets_at(init, calls, j));
        }
        lemma_latest_reset_is_baseline(init, prev, i);
    }
}

/// The baseline after a sequence of calls is the payload of the latest call
/// that reset it, or the starting baseline when none did.
pub proof fn law_baseline_is_latest_reset(init: Option<Seq<char>>, calls: Seq<PostGradCall>)
    ensures
        (forall|i: int| 0 <= i < calls.len() ==> !#[trigger] resets_at(init, calls, i)) ==> baseline_after(init, calls) == init,
        forall|i: int|
            0 <= i < calls.len() && #[trigger] resets_at(init, calls, i) && (forall|j: int|
                i < j < calls.len() ==> !#[trigger] resets_at(init, calls, j)) ==> baseline_after(init, calls)
                == Some(calls[i].payload),
{
    if forall|i: int| 0 <= i < calls.len() ==> !#[trigger] resets_at(init, calls, i) {
        lemma_no_reset_keeps_baseline(init, calls);
    }
    assert forall|i: int|
        0 <= i < calls.len() && #[trigger] resets_at(init, calls, i) && (forall|j: int|
            i < j < calls.len() ==> !#[trigger] resets_at(init, calls, j)) implies baseline_after(init, calls)
            == Some(calls[i].payload) by {
        lemma_latest_reset_is_baseline(init, calls, i);
    }
}

/// A pass dump becomes the baseline exactly when its parse succeeds, the
/// `before_post_grad_graph` artifact always does, and nothing else does.
pub proof fn law_which_calls_reset(base: Option<Seq<char>>, c: PostGradCall)
    ensures
        c.metadata is GraphDump ==> (resets_baseline(base, c) <==> post_grad_result(base, c) is Ok),
        c.metadata matches MetadataView::Artifact(a) ==> (resets_baseline(base, c) <==> a == "before_post_grad_graph"@),
        c.metadata is Other ==> !resets_baseline(base, c),
{
}

/// Each pass dump whose page renders is diffed against the payload of the
/// latest earlier call that reset the baseline (the previous pass dump or the
/// `before_post_grad_graph` artifact), and writes its dump and that page.
pub proof fn law_each_pass_diffed_against_latest_baseline(
    init: Option<Seq<char>>,
    calls: Seq<PostGradCall>,
    i: int,
    next: PostGradCall,
)
    requires
        0 <= i < calls.len(),
        resets_at(init, calls, i),
        forall|j: int| i < j < calls.len() ==> !#[trigger] resets_at(init, calls, j),
        next.metadata is GraphDump,
        pass_diff_page(next.metadata->GraphDump_0, calls[i].payload, next.payload, next.qps) is Some,
    ensures
        post_grad_result(baseline_after(init, calls), next) == Ok::<Seq<OutputView>, VllmError>(
            seq![
                OutputView::PayloadFile(next.metadata->GraphDump_0 + ".txt"@),
                OutputView::GlobalFile(
                    pass_diff_file(next.metadata->GraphDump_0),
                    pass_diff_page(next.metadata->GraphDump_0, calls[i].payload, next.payload, next.qps)->0,
                ),
            ],
        ),
        baseline_after(init, calls.push(next)) == Some(next.payload),
{
    law_baseline_is_latest_reset(init, calls);
    assert(calls.push(next).drop_last() == calls);
}

/// `tinytemplate::error::Error`, carried opaquely.
#[verifier::external_type_specification]
#[verifier::external_body]
pub struct ExTemplateError(tinytemplate::error::Error);

/// Renders `template` with `tinytemplate`: a registry made by
/// `TinyTemplate::new`, the `format_unescaped` formatter registered under
/// that name (`add_formatter`), the template compiled (`add_template`) and
/// rendered (`render`) with a context object holding the four strings under
/// the field names `css`, `pass_name`, `diff_html` and `qps`. The contract
/// names the result `rendered_diff_page`. Only the pass-diff template is
/// admitted: tinytemplate's compiler panics on some malformed `{{ if ... }}`
/// tags, and that template holds no `{{` block tag at all.
#[verifier::external_body]
fn render_diff_page(template: &str, css: &str, pass_name: &str, diff_html: &str, qps: &str) -> (page: Result<String, tinytemplate::error::Error>)
    requires
        template@ == VLLM_DIFF_TEMPLATE@,
    ensures
        match page {
            Ok(p) => rendered_diff_page(template@, css@, pass_name@, diff_html@, qps@) == Some(p@),
            Err(_) => rendered_diff_page(template@, css@, pass_name@, diff_html@, qps@) is None,
        },
{
    let mut tt = tinytemplate::TinyTemplate::new();
    tt.add_formatter("format_unescaped", tinytemplate::format_unescaped);
    tt.add_template("vllm_diff.html", template)?;
    let context: std::collections::BTreeMap<&str, &str> =
        [("css", css), ("pass_name", pass_name), ("diff_html", diff_html), ("qps", qps)].into();
    tt.render("vllm_diff.html", &context)
}

/// The name of a `vllm_post_grad.<pass>` dump without its prefix.
fn strip_pass_prefix(name: &str) -> (pass: String)
    ensures
        pass@ == pass_name_of(name@),
{
    let cs = crate::text::chars_of(name);
    let prefix = crate::text::chars_of("vllm_post_grad.");
    if crate::text::chars_start_with(&cs, &prefix) {
        crate::text::string_of_chars(&cs, prefix.len(), cs.len())
    } else {
        String::from_str(name)
    }
}

impl VllmPostGradPassDiffParser {
    pub fn new() -> (p: Self)
        ensures
            p.previous_payload is None,
    {
        VllmPostGradPassDiffParser { previous_payload: None }
    }

    pub fn name(&self) -> (n: &'static str)
        ensures
            n@ == "vllm_post_grad_pass_diff"@,
    {
        "vllm_post_grad_pass_diff"
    }

    pub fn get_metadata(&self, e: &LogEntry) -> (m: Option<Metadata>)
        ensures
            meta_view(m) == post_grad_metadata(opt_view(e.artifact), opt_view(e.graph_dump)),
    {
        if let Some(g) = &e.graph_dump {
            if starts_with(g.as_str(), "vllm_post_grad.") {
                return Some(Metadata::GraphDump(g.clone()));
            }
        }
        if let Some(a) = &e.artifact {
            if str_equal(a.as_str(), "before_post_grad_graph") {
                return Some(Metadata::Artifact(a.clone()));
            }
        }
        None
    }

    /// The side-by-side HTML diff from `before` to `after`.
    pub fn generate_diff_html(before: &str, after: &str) -> (html: String)
        ensures
            html@ == diff_table(line_diff(before@, after@)),
            before@ == after@ ==> html@ == "<div class=\"no-changes\">(no changes)</div>\n"@,
            before@ != after@ ==> html@ == "<div class=\"diff-wrapper\"><table class=\"diff-table\">\n<colgroup><col class=\"line-num-col\"><col class=\"code-col\"><col class=\"line-num-col\"><col class=\"code-col\"></colgroup>\n"@
                + hunks_body(line_diff(before@, after@)) + "</table></div>\n"@,
    {
        let hunks = crate::diff::unified_hunks(before, after);
        render_diff_table(&hunks)
    }

    /// The `before_post_grad_graph` artifact becomes the baseline and writes
    /// nothing. A pass dump raises the vLLM flag and is written as
    /// `<name>.txt`; when there is a baseline, the diff page from it to this
    /// pass is written as `vllm_post_grad.<pass>.diff.html`; then the pass
    /// becomes the baseline. A page that cannot be rendered fails the entry
    /// and leaves the baseline as it was. Other entries change nothing.
    pub fn parse(&mut self, state: &mut VllmState, metadata: &Metadata, payload: &str, qps: &str) -> (out:
        Result<Vec<ParserOutput>, VllmError>)
        ensures
            opt_view(final(self).previous_payload) == post_grad_next_baseline(
                opt_view(old(self).previous_payload),
                (PostGradCall { metadata: metadata@, payload: payload@, qps: qps@ }),
            ),
            final(state).has_vllm_artifacts == (old(state).has_vllm_artifacts || raises_flag(
                (VllmCall::PostGradPassDiff { metadata: metadata@ }),
            )),
            result_view(out) == post_grad_result(
                opt_view(old(self).previous_payload),
                (PostGradCall { metadata: metadata@, payload: payload@, qps: qps@ }),
            ),
            match metadata@ {
                MetadataView::Artifact(a) => {
                    &&& out matches Ok(v) && v@.len() == 0
                    &&& *final(state) == *old(state)
                    &&& a == "before_post_grad_graph"@ ==> opt_view(final(self).previous_payload) == Some(payload@)
                    &&& a != "before_post_grad_graph"@ ==> final(self).previous_payload == old(self).previous_payload
                },
                MetadataView::Other => {
                    &&& out matches Ok(v) && v@.len() == 0
                    &&& *final(state) == *old(state)
                    &&& final(self).previous_payload == old(self).previous_payload
                },
                MetadataView::GraphDump(name) => {
                    let txt = OutputView::PayloadFile(name + ".txt"@);
                    &&& flag_raised(*old(state), *final(state))
                    &&& match old(self).previous_payload {
                        None => {
                            &&& out matches Ok(v) && outputs_view(v@) == seq![txt]
                            &&& opt_view(final(self).previous_payload) == Some(payload@)
                        },
                        Some(before) => match pass_diff_page(name, before@, payload@, qps@) {
                            Some(page) => {
                                &&& out matches Ok(v) && outputs_view(v@) == seq![
                                    txt,
                                    OutputView::GlobalFile(pass_diff_file(name), page),
                                ]
                                &&& opt_view(final(self).previous_payload) == Some(payload@)
                            },
                            None => {
                                &&& out == Err::<Vec<ParserOutput>, VllmError>(VllmError::TemplateRender)
                                &&& final(self).previous_payload == old(self).previous_payload
                            },
                        },
                    }
                },
            },
    {
        let name = match metadata {
            Metadata::Artifact(a) => {
                if str_equal(a.as_str(), "before_post_grad_graph") {
                    self.previous_payload = Some(String::from_str(payload));
                }
                let none: Vec<ParserOutput> = Vec::new();
                assert(outputs_view(none@) =~= Seq::<OutputView>::empty());
                return Ok(none);
            },
            Metadata::Other => {
                let none: Vec<ParserOutput> = Vec::new();
                assert(outputs_view(none@) =~= Seq::<OutputView>::empty());
                return Ok(none);
            },
            Metadata::GraphDump(g) => g,
        };
        state.has_vllm_artifacts = true;
        let pass_name = strip_pass_prefix(name.as_str());
        let mut results: Vec<ParserOutput> = Vec::new();
        results.push(ParserOutput::PayloadFile(concat(name.as_str(), ".txt")));
        if let Some(before) = &self.previous_payload {
            let diff_html = Self::generate_diff_html(before.as_str(), payload);
            let rendered = match render_diff_page(
                VLLM_DIFF_TEMPLATE,
                VLLM_CSS,
                pass_name.as_str(),
                diff_html.as_str(),
                qps,
            ) {
                Ok(page) => page,
                Err(_) => {
                    return Err(VllmError::TemplateRender);
                },
            };
            let mut file = String::from_str("vllm_post_grad.");
            push_str(&mut file, pass_name.as_str());
            push_str(&mut file, ".diff.html");
            results.push(ParserOutput::GlobalFile(file, rendered));
        }
        self.previous_payload = Some(String::from_str(payload));
        assert(outputs_view(results@) =~= post_grad_result(
            opt_view(old(self).previous_payload),
            (PostGradCall { metadata: metadata@, payload: payload@, qps: qps@ }),
        )->Ok_0);
        Ok(results)
    }
}

// ---------------------------------------------------------------------------
// the set of vLLM parsers

/// One of the vLLM parsers.
#[derive(Debug)]
pub enum VllmParser {
    CompilationConfig(VllmCompilationConfigParser),
    PiecewiseSplitGraph(VllmPiecewiseSplitGraphParser),
    PiecewiseCompile(VllmPiecewiseCompileParser),
    PostGradPassDiff(VllmPostGradPassDiffParser),
}

impl VllmParser {
    /// The name of the parser.
    pub fn name(&self) -> (n: &'static str)
        ensures
            n@ == match self {
                VllmParser::CompilationConfig(_) => "vllm_compilation_config"@,
                VllmParser::PiecewiseSplitGraph(_) => "vllm_piecewise_split_graph"@,
                VllmParser::PiecewiseCompile(_) => "vllm_piecewise_compile"@,
                VllmParser::PostGradPassDiff(_) => "vllm_post_grad_pass_diff"@,
            },
    {
        match self {
            VllmParser::CompilationConfig(p) => p.name(),
            VllmParser::PiecewiseSplitGraph(p) => p.name(),
            VllmParser::PiecewiseCompile(p) => p.name(),
            VllmParser::PostGradPassDiff(p) => p.name(),
        }
    }

    /// The part of an entry the parser claims, if any.
    pub fn get_metadata(&self, e: &LogEntry) -> (m: Option<Metadata>)
        ensures
            meta_view(m) == match self {
                VllmParser::CompilationConfig(_) => config_metadata(opt_view(e.artifact)),
                VllmParser::PiecewiseSplitGraph(_) => split_graph_metadata(opt_view(e.graph_dump)),
                VllmParser::PiecewiseCompile(_) => piecewise_compile_metadata(
                    opt_view(e.artifact),
                    opt_view(e.graph_dump),
                ),
                VllmParser::PostGradPassDiff(_) => post_grad_metadata(
                    opt_view(e.artifact),
                    opt_view(e.graph_dump),
                ),
            },
    {
        match self {
            VllmParser::CompilationConfig(p) => p.get_metadata(e),
            VllmParser::PiecewiseSplitGraph(p) => p.get_metadata(e),
            VllmParser::PiecewiseCompile(p) => p.get_metadata(e),
            VllmParser::PostGradPassDiff(p) => p.get_metadata(e),
        }
    }
}

/// The vLLM parsers in the order they are consulted: configuration, split
/// graph, piecewise compile, post-grad pass diffs.
pub fn vllm_parsers_with_state() -> (parsers: Vec<VllmParser>)
    ensures
        parsers@.len() == 4,
        parsers@[0] is CompilationConfig,
        parsers@[1] is PiecewiseSplitGraph,
        parsers@[2] is PiecewiseCompile,
        parsers@[3] matches VllmParser::PostGradPassDiff(p) && p.previous_payload is None,
{
    let mut parsers: Vec<VllmParser> = Vec::new();
    parsers.push(VllmParser::CompilationConfig(VllmCompilationConfigParser::new()));
    parsers.push(VllmParser::PiecewiseSplitGraph(VllmPiecewiseSplitGraphParser::new()));
    parsers.push(VllmParser::PiecewiseCompile(VllmPiecewiseCompileParser::new()));
    parsers.push(VllmParser::PostGradPassDiff(VllmPostGradPassDiffParser::new()));
    parsers
}

// ---------------------------------------------------------------------------
// the JSON reformatting asked for by `PayloadReformatFile`

/// `serde_json::Error`, carried opaquely.
#[verifier::external_type_specification]
#[verifier::external_body]
pub struct ExJsonError(serde_json::Error);

/// Whether `serde_json` reads the text as one JSON value. Defined by the outside crate.
pub uninterp spec fn is_json_text(text: Seq<char>) -> bool;

/// The pretty-printed form (`serde_json::to_string_pretty`) of the JSON value
/// that `serde_json` reads from the text. Defined by the outside crate.
pub uninterp spec fn json_pretty_text(text: Seq<char>) -> Seq<char>;

/// `serde_json::to_string_pretty(&serde_json::from_str::<serde_json::Value>(text)?)`.
/// Reading fails exactly on the texts that are not JSON (`is_json_text`);
/// printing a `serde_json::Value` cannot fail, since its documentation gives
/// only a failing `Serialize` impl and non-string map keys as causes, and a
/// `Value` has neither. The printed text is named `json_pretty_text`.
#[verifier::external_body]
fn pretty_print_json(text: &str) -> (r: Result<String, serde_json::Error>)
    ensures
        match r {
            Ok(s) => is_json_text(text@) && s@ == json_pretty_text(text@),
            Err(_) => !is_json_text(text@),
        },
{
    serde_json::to_string_pretty(&serde_json::from_str::<serde_json::Value>(text)?)
}

/// The payload re-indented as JSON; fails exactly when it is not JSON.
pub fn reformat_json_payload(payload: &str) -> (out: Result<String, VllmError>)
    ensures
        out is Ok == is_json_text(payload@),
        out matches Ok(t) ==> t@ == json_pretty_text(payload@),
        out is Err ==> out == Err::<String, VllmError>(VllmError::InvalidJson),
{
    match pretty_print_json(payload) {
        Ok(text) => Ok(text),
        Err(_) => Err(VllmError::InvalidJson),
    }
}

} // verus!
