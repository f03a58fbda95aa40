//! The data of the vLLM view: the compilation configuration, the piecewise
//! subgraphs with their artifacts, and the groups shown on the summary page.

use vstd::prelude::*;

use crate::text::{
    decimal, is_digit, lemma_decimal_digits, push_signed_decimal, push_str,
    signed_decimal,
};

verus! {

/// The `vllm_compilation_config` artifact, every setting optional.
/// `compile_ranges_endpoints` is the name older logs use for
/// `compile_ranges_split_points`.
#[derive(Debug)]
pub struct VllmCompilationConfig {
    pub model: Option<String>,
    pub prefix: Option<String>,
    pub mode: Option<String>,
    pub backend: Option<String>,
    pub custom_ops: Option<String>,
    pub splitting_ops: Option<String>,
    pub cudagraph_mode: Option<String>,
    pub compile_sizes: Option<String>,
    pub compile_ranges_split_points: Option<String>,
    pub use_inductor_graph_partition: Option<bool>,
    pub inductor_passes: Option<String>,
    pub enabled_passes: Option<String>,
    pub dynamic_shapes_type: Option<String>,
    pub dynamic_shapes_evaluate_guards: Option<bool>,
    pub compile_ranges_endpoints: Option<String>,
}

/// A configuration in which no setting is present.
pub open spec fn empty_config() -> VllmCompilationConfig {
    VllmCompilationConfig {
        model: None,
        prefix: None,
        mode: None,
        backend: None,
        custom_ops: None,
        splitting_ops: None,
        cudagraph_mode: None,
        compile_sizes: None,
        compile_ranges_split_points: None,
        use_inductor_graph_partition: None,
        inductor_passes: None,
        enabled_passes: None,
        dynamic_shapes_type: None,
        dynamic_shapes_evaluate_guards: None,
        compile_ranges_endpoints: None,
    }
}

impl Default for VllmCompilationConfig {
    fn default() -> (config: Self)
        ensures
            config == empty_config(),
    {
        VllmCompilationConfig {
            model: None,
            prefix: None,
            mode: None,
            backend: None,
            custom_ops: None,
            splitting_ops: None,
            cudagraph_mode: None,
            compile_sizes: None,
            compile_ranges_split_points: None,
            use_inductor_graph_partition: None,
            inductor_passes: None,
            enabled_passes: None,
            dynamic_shapes_type: None,
            dynamic_shapes_evaluate_guards: None,
            compile_ranges_endpoints: None,
        }
    }
}

/// An equal copy of an optional string.
pub fn copy_opt_string(o: &Option<String>) -> (c: Option<String>)
    ensures
        c == *o,
{
    match o {
        Some(s) => Some(s.clone()),
        None => None,
    }
}

impl VllmCompilationConfig {
    /// An equal copy of the configuration.
    pub fn copy(&self) -> (c: Self)
        ensures
            c == *self,
    {
        VllmCompilationConfig {
            model: copy_opt_string(&self.model),
            prefix: copy_opt_string(&self.prefix),
            mode: copy_opt_string(&self.mode),
            backend: copy_opt_string(&self.backend),
            custom_ops: copy_opt_string(&self.custom_ops),
            splitting_ops: copy_opt_string(&self.splitting_ops),
            cudagraph_mode: copy_opt_string(&self.cudagraph_mode),
            compile_sizes: copy_opt_string(&self.compile_sizes),
            compile_ranges_split_points: copy_opt_string(&self.compile_ranges_split_points),
            use_inductor_graph_partition: self.use_inductor_graph_partition,
            inductor_passes: copy_opt_string(&self.inductor_passes),
            enabled_passes: copy_opt_string(&self.enabled_passes),
            dynamic_shapes_type: copy_opt_string(&self.dynamic_shapes_type),
            dynamic_shapes_evaluate_guards: self.dynamic_shapes_evaluate_guards,
            compile_ranges_endpoints: copy_opt_string(&self.compile_ranges_endpoints),
        }
    }
}

/// A generated artifact file: its name (the file stem), where it is, and a
/// free-form note shown next to the link.
#[derive(Debug)]
pub struct ArtifactInfo {
    pub name: String,
    pub url: String,
    pub suffix: String,
}

impl ArtifactInfo {
    /// An equal copy of the artifact.
    pub fn copy(&self) -> (c: Self)
        ensures
            c == *self,
    {
        ArtifactInfo { name: self.name.clone(), url: self.url.clone(), suffix: self.suffix.clone() }
    }
}

/// An equal copy of a list of artifacts.
pub fn copy_artifacts(v: &Vec<ArtifactInfo>) -> (c: Vec<ArtifactInfo>)
    ensures
        c@ == v@,
{
    let mut c: Vec<ArtifactInfo> = Vec::new();
    let mut i: usize = 0;
    while i < v.len()
        invariant
            i <= v@.len(),
            c@ == v@.take(i as int),
        decreases v@.len() - i,
    {
        c.push(v[i].copy());
        assert(v@.take(i + 1) == v@.take(i as int).push(v@[i as int]));
        i = i + 1;
    }
    assert(v@.take(i as int) == v@);
    c
}

/// One piecewise-compiled subgraph, announced by a
/// `vllm_piecewise_compile_start` artifact, with the artifacts that were
/// logged after it.
#[derive(Debug)]
pub struct VllmSubgraphInfo {
    pub index: i32,
    pub submod_name: Option<String>,
    pub compile_range_start: i64,
    pub compile_range_end: i64,
    pub is_single_size: bool,
    pub is_cudagraph_size: bool,
    pub artifacts: Vec<ArtifactInfo>,
}

/// `size N` for a single size, `range [A, B]` otherwise.
pub open spec fn size_or_range_text(s: VllmSubgraphInfo) -> Seq<char> {
    if s.is_single_size {
        "size "@ + signed_decimal(s.compile_range_start as int)
    } else {
        "range ["@ + signed_decimal(s.compile_range_start as int) + ", "@ + signed_decimal(
            s.compile_range_end as int,
        ) + "]"@
    }
}

/// The submodule name, or `subgraph_<index>` when the log gave none.
pub open spec fn display_name_text(s: VllmSubgraphInfo) -> Seq<char> {
    match s.submod_name {
        Some(name) => name@,
        None => "subgraph_"@ + signed_decimal(s.index as int),
    }
}

impl VllmSubgraphInfo {
    /// The label of the compile range this subgraph was compiled for.
    pub fn size_or_range(&self) -> (label: String)
        ensures
            label@ == size_or_range_text(*self),
    {
        let mut label = String::new();
        if self.is_single_size {
            push_str(&mut label, "size ");
            push_signed_decimal(&mut label, self.compile_range_start);
        } else {
            push_str(&mut label, "range [");
            push_signed_decimal(&mut label, self.compile_range_start);
            push_str(&mut label, ", ");
            push_signed_decimal(&mut label, self.compile_range_end);
            push_str(&mut label, "]");
        }
        label
    }

    /// The name under which the subgraph is listed.
    pub fn display_submod_name(&self) -> (name: String)
        ensures
            name@ == display_name_text(*self),
    {
        match &self.submod_name {
            Some(name) => name.clone(),
            None => {
                let mut name = String::new();
                push_str(&mut name, "subgraph_");
                push_signed_decimal(&mut name, self.index as i64);
                name
            },
        }
    }
}

/// A subgraph as listed inside its compile-range group.
#[derive(Debug)]
pub struct VllmSubgraphWithArtifacts {
    pub submod_name: String,
    pub artifacts: Vec<ArtifactInfo>,
    pub artifact_count: usize,
}

/// The subgraphs compiled for one size or range, in the order they were logged.
#[derive(Debug)]
pub struct VllmCompileRangeGroup {
    pub size_or_range: String,
    pub submod_count: usize,
    pub submods: Vec<VllmSubgraphWithArtifacts>,
}

/// Everything the summary page shows.
#[derive(Debug)]
pub struct VllmSummaryContext {
    pub css: String,
    pub qps: String,
    pub custom_header_html: String,
    pub config: VllmCompilationConfig,
    pub has_config: bool,
    pub dynamo_artifacts: Vec<ArtifactInfo>,
    pub has_dynamo_artifacts: bool,
    pub piecewise_graph_file: Option<String>,
    pub has_piecewise: bool,
    pub compile_range_groups: Vec<VllmCompileRangeGroup>,
}

proof fn lemma_signed_decimal_chars(i: int)
    ensures
        signed_decimal(i).len() > 0,
        forall|k: int| 0 <= k < signed_decimal(i).len() ==> (is_digit(#[trigger] signed_decimal(i)[k]) || signed_decimal(i)[k] == '-'),
        is_digit(signed_decimal(i).last()),
{
    let n = if i < 0 { -i } else { i };
    lemma_decimal_digits(n as nat);
    let d = decimal(n as nat);
    if i < 0 {
        assert forall|k: int| 0 <= k < signed_decimal(i).len() implies (is_digit(#[trigger] signed_decimal(i)[k]) || signed_decimal(i)[k] == '-') by {
            if k > 0 {
                assert(signed_decimal(i)[k] == d[k - 1]);
            }
        }
        assert(signed_decimal(i).last() == d.last());
    }
}

proof fn lemma_signed_decimal_injective(i: int, j: int)
    requires
        signed_decimal(i) == signed_decimal(j),
    ensures
        i == j,
{
    let a = if i < 0 { -i } else { i };
    let b = if j < 0 { -j } else { j };
    lemma_decimal_digits(a as nat);
    lemma_decimal_digits(b as nat);
    if i < 0 && j < 0 {
        assert(decimal(a as nat) == signed_decimal(i).skip(1));
        assert(decimal(b as nat) == signed_decimal(j).skip(1));
    } else if i < 0 {
        assert(signed_decimal(i)[0] == '-');
        assert(is_digit(decimal(b as nat)[0]));
    } else if j < 0 {
        assert(signed_decimal(j)[0] == '-');
        assert(is_digit(decimal(a as nat)[0]));
    }
}

/// Two signed decimals followed by the same separator, whose first
/// character is neither a digit nor `-`, can only be split one way.
proof fn lemma_split_after_decimal(x: int, y: int, sep: Seq<char>, r1: Seq<char>, r2: Seq<char>)
    requires
        sep.len() > 0,
        !is_digit(sep[0]),
        sep[0] != '-',
        signed_decimal(x) + sep + r1 == signed_decimal(y) + sep + r2,
    ensures
        x == y,
        r1 == r2,
{
    let a = signed_decimal(x);
    let b = signed_decimal(y);
    lemma_signed_decimal_chars(x);
    lemma_signed_decimal_chars(y);
    let l = a + sep + r1;
    let r = b + sep + r2;
    if a.len() < b.len() {
        assert(l[a.len() as int] == sep[0]);
        assert(r[a.len() as int] == b[a.len() as int]);
    } else if b.len() < a.len() {
        assert(r[b.len() as int] == sep[0]);
        assert(l[b.len() as int] == a[b.len() as int]);
    }
    assert(a.len() == b.len());
    assert(a =~= l.take(a.len() as int));
    assert(b =~= r.take(b.len() as int));
    lemma_signed_decimal_injective(x, y);
    assert(r1 =~= l.skip((a.len() + sep.len()) as int));
    assert(r2 =~= r.skip((b.len() + sep.len()) as int));
}

/// The size-or-range label identifies the range: two subgraphs share a label
/// exactly when both are single sizes with the same size, or both are ranges
/// with the same two ends. Grouping by label is grouping by range.
pub proof fn law_size_or_range_identifies_the_range(a: VllmSubgraphInfo, b: VllmSubgraphInfo)
    ensures
        size_or_range_text(a) == size_or_range_text(b) <==> (a.is_single_size == b.is_single_size
            && a.compile_range_start == b.compile_range_start && (!a.is_single_size
            ==> a.compile_range_end == b.compile_range_end)),
{
    reveal_strlit("size ");
    reveal_strlit("range [");
    reveal_strlit(", ");
    reveal_strlit("]");
    let ta = size_or_range_text(a);
    let tb = size_or_range_text(b);
    if ta == tb {
        if a.is_single_size && b.is_single_size {
            assert(signed_decimal(a.compile_range_start as int) == ta.skip(5));
            assert(signed_decimal(b.compile_range_start as int) == tb.skip(5));
            lemma_signed_decimal_injective(a.compile_range_start as int, b.compile_range_start as int);
        } else if !a.is_single_size && !b.is_single_size {
            let ea = signed_decimal(a.compile_range_end as int) + "]"@;
            let eb = signed_decimal(b.compile_range_end as int) + "]"@;
            assert(ta.skip(7) == signed_decimal(a.compile_range_start as int) + ", "@ + ea);
            assert(tb.skip(7) == signed_decimal(b.compile_range_start as int) + ", "@ + eb);
            lemma_split_after_decimal(
                a.compile_range_start as int,
                b.compile_range_start as int,
                ", "@,
                ea,
                eb,
            );
            assert(signed_decimal(a.compile_range_end as int) == ea.drop_last());
            assert(signed_decimal(b.compile_range_end as int) == eb.drop_last());
            lemma_signed_decimal_injective(a.compile_range_end as int, b.compile_range_end as int);
        } else {
            assert(ta[0] != tb[0]);
        }
    }
}

} // verus!
