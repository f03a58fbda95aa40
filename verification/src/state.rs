//! What the vLLM parsers remember while a log is read, and the views of it
//! that the summary page shows.

use vstd::prelude::*;

use crate::parsers::{raises_flag, VllmCall};
use crate::text::{chars_of, has_prefix, starts_with};
use crate::types::{
    ArtifactInfo, VllmCompilationConfig, VllmCompileRangeGroup, VllmSubgraphInfo,
    VllmSubgraphWithArtifacts, VllmSummaryContext, copy_artifacts, copy_opt_string,
    display_name_text, empty_config, size_or_range_text,
};

verus! {

/// The state shared by the vLLM parsers of one log.
///
/// Artifacts logged before the first `vllm_piecewise_compile_start` belong to
/// no subgraph and are kept in `pre_subgraph_artifacts`; every later artifact
/// belongs to the most recently started subgraph.
#[derive(Debug)]
pub struct VllmState {
    pub config: Option<VllmCompilationConfig>,
    pub piecewise_graph_file: Option<String>,
    pub subgraphs: Vec<VllmSubgraphInfo>,
    pub pre_subgraph_artifacts: Vec<ArtifactInfo>,
    pub has_vllm_artifacts: bool,
}

/// The file stem of a path, as `std::path::Path::file_stem` computes it.
pub uninterp spec fn path_file_stem(path: Seq<char>) -> Option<Seq<char>>;

/// `std::path::Path::new(path).file_stem()`, converted back to a `String`.
/// The contract names the result `path_file_stem`; a stem taken from a
/// `&str` is always valid UTF-8, so the conversion never drops it.
#[verifier::external_body]
fn file_stem_of(path: &str) -> (stem: Option<String>)
    ensures
        match stem {
            Some(s) => path_file_stem(path@) == Some(s@),
            None => path_file_stem(path@) is None,
        },
{
    std::path::Path::new(path).file_stem().and_then(|s| s.to_str()).map(|s| s.to_string())
}

/// The name under which a generated file is listed: its stem, or the whole
/// path when it has none.
pub open spec fn artifact_name_text(path: Seq<char>) -> Seq<char> {
    match path_file_stem(path) {
        Some(stem) => stem,
        None => path,
    }
}

/// The artifact that `add_artifact(path, suffix)` records.
pub open spec fn recorded_artifact(a: ArtifactInfo, path: Seq<char>, suffix: Seq<char>) -> bool {
    &&& a.name@ == artifact_name_text(path)
    &&& a.url@ == path
    &&& a.suffix@ == suffix
}

/// A name that starts with one of the prefixes of Dynamo's own artifacts.
pub open spec fn is_dynamo_name(name: Seq<char>) -> bool {
    ||| has_prefix(name, "dynamo_side_effects"@)
    ||| has_prefix(name, "dynamo_output_graph"@)
    ||| has_prefix(name, "dynamo_cpp_guards_str"@)
    ||| has_prefix(name, "compilation_metrics"@)
}

/// The artifacts of `s` whose names mark them as Dynamo's, in order.
pub open spec fn dynamo_artifacts_of(s: Seq<ArtifactInfo>) -> Seq<ArtifactInfo>
    decreases s.len(),
{
    if s.len() == 0 {
        seq![]
    } else {
        let rest = dynamo_artifacts_of(s.drop_last());
        if is_dynamo_name(s.last().name@) {
            rest.push(s.last())
        } else {
            rest
        }
    }
}

/// The subgraph `t` is `s` with one more artifact `a` at the end of its list.
pub open spec fn with_artifact(s: VllmSubgraphInfo, t: VllmSubgraphInfo, a: ArtifactInfo) -> bool {
    &&& t.index == s.index
    &&& t.submod_name == s.submod_name
    &&& t.compile_range_start == s.compile_range_start
    &&& t.compile_range_end == s.compile_range_end
    &&& t.is_single_size == s.is_single_size
    &&& t.is_cudagraph_size == s.is_cudagraph_size
    &&& t.artifacts@ == s.artifacts@.push(a)
}

impl VllmState {
    /// A state in which nothing has been seen yet.
    pub open spec fn is_empty(&self) -> bool {
        &&& self.config is None
        &&& self.piecewise_graph_file is None
        &&& self.subgraphs@.len() == 0
        &&& self.pre_subgraph_artifacts@.len() == 0
        &&& !self.has_vllm_artifacts
    }

    /// A fresh state.
    pub fn new() -> (state: Self)
        ensures
            state.is_empty(),
    {
        VllmState {
            config: None,
            piecewise_graph_file: None,
            subgraphs: Vec::new(),
            pre_subgraph_artifacts: Vec::new(),
            has_vllm_artifacts: false,
        }
    }

    /// Whether any vLLM artifact has been seen.
    pub fn has_artifacts(&self) -> (b: bool)
        ensures
            b == self.has_vllm_artifacts,
    {
        self.has_vllm_artifacts
    }

    /// Records a generated file: it joins the most recently started subgraph,
    /// or the artifacts seen before any subgraph when none has started yet.
    /// A file whose name starts with `vllm_piecewise_split_graph` also
    /// becomes the linked split graph.
    pub fn add_artifact(&mut self, filename: &str, suffix: String)
        ensures
            final(self).config == old(self).config,
            final(self).has_vllm_artifacts == old(self).has_vllm_artifacts,
            final(self).has_vllm_artifacts == (old(self).has_vllm_artifacts || raises_flag(VllmCall::AddArtifact)),
            has_prefix(artifact_name_text(filename@), "vllm_piecewise_split_graph"@) ==> (final(self).piecewise_graph_file matches Some(f) && f@ == filename@),
            !has_prefix(artifact_name_text(filename@), "vllm_piecewise_split_graph"@) ==> final(self).piecewise_graph_file == old(self).piecewise_graph_file,
            final(self).subgraphs@.len() == old(self).subgraphs@.len(),
            old(self).subgraphs@.len() == 0 ==> {
                &&& final(self).subgraphs@ == old(self).subgraphs@
                &&& final(self).pre_subgraph_artifacts@.len() == old(self).pre_subgraph_artifacts@.len() + 1
                &&& final(self).pre_subgraph_artifacts@.drop_last() == old(self).pre_subgraph_artifacts@
                &&& recorded_artifact(final(self).pre_subgraph_artifacts@.last(), filename@, suffix@)
            },
            old(self).subgraphs@.len() > 0 ==> {
                let n = old(self).subgraphs@.len() - 1;
                &&& final(self).pre_subgraph_artifacts@ == old(self).pre_subgraph_artifacts@
                &&& final(self).subgraphs@.take(n) == old(self).subgraphs@.take(n)
                &&& final(self).subgraphs@[n].artifacts@.len() > 0
                &&& with_artifact(
                    old(self).subgraphs@[n],
                    final(self).subgraphs@[n],
                    final(self).subgraphs@[n].artifacts@.last(),
                )
                &&& recorded_artifact(final(self).subgraphs@[n].artifacts@.last(), filename@, suffix@)
            },
    {
        let url = String::from_str(filename);
        let name = match file_stem_of(filename) {
            Some(stem) => stem,
            None => url.clone(),
        };
        if starts_with(name.as_str(), "vllm_piecewise_split_graph") {
            self.piecewise_graph_file = Some(url.clone());
        }
        let artifact = ArtifactInfo { name, url, suffix };
        match self.subgraphs.pop() {
            Some(mut last) => {
                last.artifacts.push(artifact);
                self.subgraphs.push(last);
            },
            None => {
                self.pre_subgraph_artifacts.push(artifact);
            },
        }
    }

    /// The artifacts seen before any subgraph that Dynamo produced, in order.
    pub fn build_dynamo_artifacts(&self) -> (arts: Vec<ArtifactInfo>)
        ensures
            arts@ == dynamo_artifacts_of(self.pre_subgraph_artifacts@),
    {
        let pre = &self.pre_subgraph_artifacts;
        let p0 = chars_of("dynamo_side_effects");
        let p1 = chars_of("dynamo_output_graph");
        let p2 = chars_of("dynamo_cpp_guards_str");
        let p3 = chars_of("compilation_metrics");
        let mut arts: Vec<ArtifactInfo> = Vec::new();
        let mut i: usize = 0;
        while i < pre.len()
            invariant
                i <= pre@.len(),
                p0@ == "dynamo_side_effects"@,
                p1@ == "dynamo_output_graph"@,
                p2@ == "dynamo_cpp_guards_str"@,
                p3@ == "compilation_metrics"@,
                arts@ == dynamo_artifacts_of(pre@.take(i as int)),
            decreases pre@.len() - i,
        {
            let name = chars_of(pre[i].name.as_str());
            let keep = crate::text::chars_start_with(&name, &p0)
                || crate::text::chars_start_with(&name, &p1)
                || crate::text::chars_start_with(&name, &p2)
                || crate::text::chars_start_with(&name, &p3);
            if keep {
                arts.push(pre[i].copy());
            }
            assert(pre@.take(i + 1).drop_last() == pre@.take(i as int));
            i = i + 1;
        }
        assert(pre@.take(i as int) == pre@);
        arts
    }
}

/// `indexmap::IndexMap`, an insertion-ordered hash map; its keys are
/// described by `index_map_keys`.
#[verifier::external_type_specification]
#[verifier::external_body]
#[verifier::reject_recursive_types(K)]
#[verifier::reject_recursive_types(V)]
#[verifier::reject_recursive_types(S)]
pub struct ExIndexMap<K, V, S>(indexmap::IndexMap<K, V, S>);

/// The keys of an insertion-ordered map, in insertion order.
pub uninterp spec fn index_map_keys(m: indexmap::IndexMap<String, ()>) -> Seq<Seq<char>>;

/// `indexmap::IndexMap::new`: a map without keys.
#[verifier::external_body]
fn new_key_index() -> (m: indexmap::IndexMap<String, ()>)
    ensures
        index_map_keys(m) == Seq::<Seq<char>>::empty(),
{
    indexmap::IndexMap::new()
}

/// `indexmap::IndexMap::insert_full(key, ())`, returning the index of the key:
/// a key already present keeps its place and its index; a new key goes last.
#[verifier::external_body]
fn insert_key(m: &mut indexmap::IndexMap<String, ()>, key: String) -> (idx: usize)
    ensures
        index_map_keys(*old(m)).contains(key@) ==> {
            &&& index_map_keys(*final(m)) == index_map_keys(*old(m))
            &&& idx < index_map_keys(*old(m)).len()
            &&& index_map_keys(*old(m))[idx as int] == key@
        },
        !index_map_keys(*old(m)).contains(key@) ==> {
            &&& index_map_keys(*final(m)) == index_map_keys(*old(m)).push(key@)
            &&& idx == index_map_keys(*old(m)).len()
        },
{
    m.insert_full(key, ()).0
}

/// How a subgraph is listed inside its group.
pub struct SubmodView {
    pub name: Seq<char>,
    pub artifacts: Seq<ArtifactInfo>,
    pub artifact_count: nat,
}

pub open spec fn listing_of(s: VllmSubgraphInfo) -> SubmodView {
    SubmodView {
        name: display_name_text(s),
        artifacts: s.artifacts@,
        artifact_count: s.artifacts@.len(),
    }
}

pub open spec fn submod_view(m: VllmSubgraphWithArtifacts) -> SubmodView {
    SubmodView { name: m.submod_name@, artifacts: m.artifacts@, artifact_count: m.artifact_count as nat }
}

/// The distinct size-or-range labels of the subgraphs, in order of first appearance.
pub open spec fn group_labels(subs: Seq<VllmSubgraphInfo>) -> Seq<Seq<char>>
    decreases subs.len(),
{
    if subs.len() == 0 {
        seq![]
    } else {
        let labels = group_labels(subs.drop_last());
        let label = size_or_range_text(subs.last());
        if labels.contains(label) {
            labels
        } else {
            labels.push(label)
        }
    }
}

/// The listings of the subgraphs with the given label, in order.
pub open spec fn group_members(subs: Seq<VllmSubgraphInfo>, label: Seq<char>) -> Seq<SubmodView>
    decreases subs.len(),
{
    if subs.len() == 0 {
        seq![]
    } else {
        let members = group_members(subs.drop_last(), label);
        if size_or_range_text(subs.last()) == label {
            members.push(listing_of(subs.last()))
        } else {
            members
        }
    }
}

/// `groups` lists exactly the subgraphs of `subs`, one group per distinct
/// label in order of first appearance, each group in log order.
pub open spec fn groups_match(groups: Seq<VllmCompileRangeGroup>, subs: Seq<VllmSubgraphInfo>) -> bool {
    &&& groups.len() == group_labels(subs).len()
    &&& forall|g: int|
        #![trigger groups[g]]
        0 <= g < groups.len() ==> {
            &&& groups[g].size_or_range@ == group_labels(subs)[g]
            &&& groups[g].submods@.map_values(|m: VllmSubgraphWithArtifacts| submod_view(m))
                == group_members(subs, group_labels(subs)[g])
            &&& groups[g].submod_count == groups[g].submods@.len()
        }
}

pub proof fn lemma_labels_distinct(subs: Seq<VllmSubgraphInfo>)
    ensures
        group_labels(subs).no_duplicates(),
        forall|l: Seq<char>| group_labels(subs).contains(l) ==> group_members(subs, l).len() > 0,
        forall|l: Seq<char>| !group_labels(subs).contains(l) ==> group_members(subs, l).len() == 0,
    decreases subs.len(),
{
    if subs.len() > 0 {
        lemma_labels_distinct(subs.drop_last());
        let labels = group_labels(subs.drop_last());
        let label = size_or_range_text(subs.last());
        assert forall|l: Seq<char>| group_labels(subs).contains(l) implies group_members(subs, l).len() > 0 by {
            if l != label {
                assert(labels.contains(l)) by {
                    if !labels.contains(label) {
                        let k = choose|k: int| 0 <= k < labels.push(label).len() && labels.push(label)[k] == l;
                        assert(labels[k] == l);
                    }
                }
            }
        }
        assert forall|l: Seq<char>| !group_labels(subs).contains(l) implies group_members(subs, l).len() == 0 by {
            if labels.contains(l) {
                let k = choose|k: int| 0 <= k < labels.len() && labels[k] == l;
                if !labels.contains(label) {
                    assert(labels.push(label)[k] == l);
                }
            }
            if l == label && !labels.contains(label) {
                assert(labels.push(label)[labels.len() as int] == l);
            }
        }
    }
}

impl VllmState {
    /// The subgraphs grouped by the size or range they were compiled for:
    /// one group per distinct label in order of first appearance, each
    /// listing its subgraphs in log order with their artifacts.
    pub fn build_compile_range_groups(&self) -> (groups: Vec<VllmCompileRangeGroup>)
        ensures
            groups_match(groups@, self.subgraphs@),
    {
        let subs = &self.subgraphs;
        let mut index = new_key_index();
        let mut groups: Vec<VllmCompileRangeGroup> = Vec::new();
        let mut i: usize = 0;
        while i < subs.len()
            invariant
                i <= subs@.len(),
                index_map_keys(index) == group_labels(subs@.take(i as int)),
                groups_match(groups@, subs@.take(i as int)),
            decreases subs@.len() - i,
        {
            let ghost prev = subs@.take(i as int);
            let ghost next = subs@.take(i + 1);
            assert(next.drop_last() == prev);
            assert(next.last() == subs@[i as int]);
            let ghost old_groups = groups@;
            let label = subs[i].size_or_range();
            let member = VllmSubgraphWithArtifacts {
                submod_name: subs[i].display_submod_name(),
                artifacts: copy_artifacts(&subs[i].artifacts),
                artifact_count: subs[i].artifacts.len(),
            };
            let at = insert_key(&mut index, label.clone());
            proof {
                lemma_labels_distinct(prev);
            }
            if at == groups.len() {
                let mut submods: Vec<VllmSubgraphWithArtifacts> = Vec::new();
                submods.push(member);
                groups.push(VllmCompileRangeGroup { size_or_range: label, submod_count: 1, submods });
                proof {
                    assert(group_labels(next) == group_labels(prev).push(label@));
                    assert forall|g: int|
                        #![trigger groups@[g]]
                        0 <= g < groups@.len() implies {
                        &&& groups@[g].size_or_range@ == group_labels(next)[g]
                        &&& groups@[g].submods@.map_values(|m: VllmSubgraphWithArtifacts| submod_view(m))
                            == group_members(next, group_labels(next)[g])
                        &&& groups@[g].submod_count == groups@[g].submods@.len()
                    } by {
                        if g < old_groups.len() {
                            assert(groups@[g] == old_groups[g]);
                            assert(group_labels(prev)[g] != label@) by {
                                assert(group_labels(prev).contains(group_labels(prev)[g]));
                            }
                        } else {
                            assert(group_members(prev, label@).len() == 0);
                            assert(groups@[g].submods@.map_values(|m: VllmSubgraphWithArtifacts| submod_view(m))
                                =~= group_members(next, label@));
                        }
                    }
                }
            } else {
                let mut grp = groups.remove(at);
                grp.submods.push(member);
                grp.submod_count = grp.submods.len();
                groups.insert(at, grp);
                proof {
                    assert(group_labels(next) == group_labels(prev));
                    assert forall|g: int|
                        #![trigger groups@[g]]
                        0 <= g < groups@.len() implies {
                        &&& groups@[g].size_or_range@ == group_labels(next)[g]
                        &&& groups@[g].submods@.map_values(|m: VllmSubgraphWithArtifacts| submod_view(m))
                            == group_members(next, group_labels(next)[g])
                        &&& groups@[g].submod_count == groups@[g].submods@.len()
                    } by {
                        if g != at {
                            assert(groups@[g] == old_groups[g]);
                            assert(group_labels(prev)[g] != label@) by {
                                assert(group_labels(prev).no_duplicates());
                            }
                        } else {
                            assert(old_groups[g].submods@.map_values(|m: VllmSubgraphWithArtifacts| submod_view(m))
                                == group_members(prev, label@));
                            assert(groups@[g].submods@.map_values(|m: VllmSubgraphWithArtifacts| submod_view(m))
                                =~= group_members(prev, label@).push(listing_of(subs@[i as int])));
                        }
                    }
                }
            }
            i = i + 1;
        }
        assert(subs@.take(i as int) == subs@);
        groups
    }
}

/// `c` with `compile_ranges_split_points` filled in from the older
/// `compile_ranges_endpoints` when only the latter is present.
pub open spec fn normalized(c: VllmCompilationConfig) -> VllmCompilationConfig {
    if c.compile_ranges_split_points is None && c.compile_ranges_endpoints is Some {
        VllmCompilationConfig { compile_ranges_split_points: c.compile_ranges_endpoints, ..c }
    } else {
        c
    }
}

/// Fills in `compile_ranges_split_points` from `compile_ranges_endpoints`
/// for logs written before the setting was renamed.
pub fn normalize_config(config: &VllmCompilationConfig) -> (c: VllmCompilationConfig)
    ensures
        c == normalized(*config),
{
    let mut c = config.copy();
    if c.compile_ranges_split_points.is_none() {
        if let Some(endpoints) = &config.compile_ranges_endpoints {
            c.compile_ranges_split_points = Some(endpoints.clone());
        }
    }
    c
}

impl VllmState {
    /// Everything the summary page shows, from what the parsers have seen:
    /// the normalized configuration (or an empty one), the Dynamo artifacts,
    /// the split graph link and the compile-range groups.
    pub fn summary_context(&self, qps: &str, custom_header_html: &str) -> (ctx: VllmSummaryContext)
        ensures
            ctx.css@ == crate::templates::VLLM_CSS@,
            ctx.qps@ == qps@,
            ctx.custom_header_html@ == custom_header_html@,
            ctx.config == (match self.config {
                Some(c) => normalized(c),
                None => empty_config(),
            }),
            ctx.has_config == self.config is Some,
            ctx.dynamo_artifacts@ == dynamo_artifacts_of(self.pre_subgraph_artifacts@),
            ctx.has_dynamo_artifacts == (ctx.dynamo_artifacts@.len() > 0),
            ctx.piecewise_graph_file == self.piecewise_graph_file,
            ctx.has_piecewise == self.piecewise_graph_file is Some,
            groups_match(ctx.compile_range_groups@, self.subgraphs@),
    {
        let config = match &self.config {
            Some(c) => normalize_config(c),
            None => VllmCompilationConfig::default(),
        };
        let dynamo_artifacts = self.build_dynamo_artifacts();
        let has_dynamo_artifacts = dynamo_artifacts.len() > 0;
        let piecewise_graph_file = copy_opt_string(&self.piecewise_graph_file);
        let has_piecewise = piecewise_graph_file.is_some();
        let compile_range_groups = self.build_compile_range_groups();
        VllmSummaryContext {
            css: String::from_str(crate::templates::VLLM_CSS),
            qps: String::from_str(qps),
            custom_header_html: String::from_str(custom_header_html),
            has_config: self.config.is_some(),
            config,
            dynamo_artifacts,
            has_dynamo_artifacts,
            piecewise_graph_file,
            has_piecewise,
            compile_range_groups,
        }
    }
}

/// The number of listings over all groups named in `labels`.
pub open spec fn members_total(subs: Seq<VllmSubgraphInfo>, labels: Seq<Seq<char>>) -> nat
    decreases labels.len(),
{
    if labels.len() == 0 {
        0
    } else {
        members_total(subs, labels.drop_last()) + group_members(subs, labels.last()).len()
    }
}

proof fn lemma_members_total_step(subs: Seq<VllmSubgraphInfo>, labels: Seq<Seq<char>>)
    requires
        subs.len() > 0,
        labels.no_duplicates(),
    ensures
        members_total(subs, labels) == members_total(subs.drop_last(), labels) + (if labels.contains(
            size_or_range_text(subs.last()),
        ) {
            1nat
        } else {
            0nat
        }),
    decreases labels.len(),
{
    if labels.len() > 0 {
        let init = labels.drop_last();
        assert(init.no_duplicates());
        lemma_members_total_step(subs, init);
        let l = size_or_range_text(subs.last());
        if labels.last() == l {
            assert(!init.contains(l)) by {
                if init.contains(l) {
                    let k = choose|k: int| 0 <= k < init.len() && init[k] == l;
                    assert(labels[k] == labels[labels.len() - 1]);
                }
            }
            assert(labels.contains(l));
        } else {
            assert(init.contains(l) == labels.contains(l)) by {
                if labels.contains(l) {
                    let k = choose|k: int| 0 <= k < labels.len() && labels[k] == l;
                    assert(init[k] == l);
                }
            }
        }
    }
}

proof fn lemma_members_total_absent(subs: Seq<VllmSubgraphInfo>, labels: Seq<Seq<char>>, l: Seq<char>)
    ensures
        members_total(subs, labels.push(l)) == members_total(subs, labels) + group_members(subs, l).len(),
{
    assert(labels.push(l).drop_last() == labels);
}

/// The compile-range groups partition the subgraphs: their labels are
/// distinct, every subgraph's label names a group, and the groups list as
/// many subgraphs in total as there are subgraphs.
pub proof fn law_groups_partition_subgraphs(subs: Seq<VllmSubgraphInfo>)
    ensures
        group_labels(subs).no_duplicates(),
        forall|i: int| 0 <= i < subs.len() ==> group_labels(subs).contains(#[trigger] size_or_range_text(subs[i])),
        members_total(subs, group_labels(subs)) == subs.len(),
    decreases subs.len(),
{
    lemma_labels_distinct(subs);
    if subs.len() > 0 {
        let prev = subs.drop_last();
        law_groups_partition_subgraphs(prev);
        let labels = group_labels(prev);
        let l = size_or_range_text(subs.last());
        lemma_labels_distinct(prev);
        lemma_members_total_step(subs, group_labels(subs));
        if labels.contains(l) {
            assert(group_labels(subs) == labels);
        } else {
            assert(group_labels(subs) == labels.push(l));
            lemma_members_total_absent(prev, labels, l);
            assert(group_members(prev, l).len() == 0);
        }
        assert forall|i: int| 0 <= i < subs.len() implies group_labels(subs).contains(#[trigger] size_or_range_text(subs[i])) by {
            if i < subs.len() - 1 {
                assert(prev[i] == subs[i]);
                assert(labels.contains(size_or_range_text(prev[i])));
                if !labels.contains(l) {
                    let k = choose|k: int| 0 <= k < labels.len() && labels[k] == size_or_range_text(prev[i]);
                    assert(labels.push(l)[k] == size_or_range_text(subs[i]));
                }
            } else {
                if !labels.contains(l) {
                    assert(labels.push(l)[labels.len() as int] == l);
                }
            }
        }
    }
}

/// The Dynamo artifacts are exactly the artifacts seen before any subgraph
/// whose names carry a Dynamo prefix.
pub proof fn law_dynamo_artifacts_are_the_dynamo_named_ones(s: Seq<ArtifactInfo>)
    ensures
        forall|a: ArtifactInfo| #[trigger] dynamo_artifacts_of(s).contains(a) <==> (s.contains(a) && is_dynamo_name(a.name@)),
    decreases s.len(),
{
    if s.len() > 0 {
        let init = s.drop_last();
        law_dynamo_artifacts_are_the_dynamo_named_ones(init);
        assert forall|a: ArtifactInfo| s.contains(a) <==> (init.contains(a) || a == s.last()) by {
            if s.contains(a) {
                let k = choose|k: int| 0 <= k < s.len() && s[k] == a;
                if k < s.len() - 1 {
                    assert(init[k] == a);
                }
            }
            if init.contains(a) {
                let k = choose|k: int| 0 <= k < init.len() && init[k] == a;
                assert(s[k] == a);
            }
            if a == s.last() {
                assert(s[s.len() - 1] == a);
            }
        }
        let r = dynamo_artifacts_of(init);
        assert forall|a: ArtifactInfo| r.push(s.last()).contains(a) <==> (r.contains(a) || a == s.last()) by {
            if r.push(s.last()).contains(a) {
                let k = choose|k: int| 0 <= k < r.push(s.last()).len() && r.push(s.last())[k] == a;
                if k < r.len() {
                    assert(r[k] == a);
                }
            }
            if r.contains(a) {
                let k = choose|k: int| 0 <= k < r.len() && r[k] == a;
                assert(r.push(s.last())[k] == a);
            }
            if a == s.last() {
                assert(r.push(s.last())[r.len() as int] == a);
            }
        }
        assert forall|a: ArtifactInfo| #[trigger] dynamo_artifacts_of(s).contains(a) <==> (s.contains(a)
            && is_dynamo_name(a.name@)) by {
            assert(s.contains(a) <==> (init.contains(a) || a == s.last()));
            assert(r.contains(a) <==> (init.contains(a) && is_dynamo_name(a.name@)));
            assert(r.push(s.last()).contains(a) <==> (r.contains(a) || a == s.last()));
            if is_dynamo_name(s.last().name@) {
                assert(dynamo_artifacts_of(s) == r.push(s.last()));
            } else {
                assert(dynamo_artifacts_of(s) == r);
            }
        }
    }
}

/// Normalizing changes nothing but `compile_ranges_split_points`: every other
/// setting is kept as it is, the split points are kept when present and taken
/// from `compile_ranges_endpoints` otherwise, and a configuration that has
/// split points comes back unchanged.
pub proof fn law_normalize_changes_only_split_points(c: VllmCompilationConfig)
    ensures
        normalized(c).model == c.model,
        normalized(c).prefix == c.prefix,
        normalized(c).mode == c.mode,
        normalized(c).backend == c.backend,
        normalized(c).custom_ops == c.custom_ops,
        normalized(c).splitting_ops == c.splitting_ops,
        normalized(c).cudagraph_mode == c.cudagraph_mode,
        normalized(c).compile_sizes == c.compile_sizes,
        normalized(c).use_inductor_graph_partition == c.use_inductor_graph_partition,
        normalized(c).inductor_passes == c.inductor_passes,
        normalized(c).enabled_passes == c.enabled_passes,
        normalized(c).dynamic_shapes_type == c.dynamic_shapes_type,
        normalized(c).dynamic_shapes_evaluate_guards == c.dynamic_shapes_evaluate_guards,
        normalized(c).compile_ranges_endpoints == c.compile_ranges_endpoints,
        normalized(c).compile_ranges_split_points == (if c.compile_ranges_split_points is Some {
            c.compile_ranges_split_points
        } else {
            c.compile_ranges_endpoints
        }),
        c.compile_ranges_split_points is Some ==> normalized(c) == c,
{
}

/// Normalizing a configuration twice is normalizing it once.
pub proof fn law_normalize_is_idempotent(c: VllmCompilationConfig)
    ensures
        normalized(normalized(c)) == normalized(c),
{
}

} // verus!
