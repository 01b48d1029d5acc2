//! The reports the language model writes: the analysis of a repository, the
//! technology stack it found, and a recommended stack for a new project.

use vstd::prelude::*;
use crate::errors::opt_view;
use crate::file_change::{FileChange, FileChangeView, file_change_views};
use crate::text::str_eq;

verus! {

/// Key/value entries as character sequences.
pub open spec fn pair_views(v: Seq<(String, String)>) -> Seq<(Seq<char>, Seq<char>)> {
    v.map_values(|p: (String, String)| (p.0@, p.1@))
}

/// Index of the first entry at or after `j` with key `k`, or the number of entries.
pub open spec fn key_index(m: Seq<(Seq<char>, Seq<char>)>, k: Seq<char>, j: int) -> int
    decreases m.len() - j,
{
    if j < 0 || j >= m.len() {
        m.len() as int
    } else if m[j].0 == k {
        j
    } else {
        key_index(m, k, j + 1)
    }
}

/// Setting key `k` to `v`: an entry with that key takes the new value in place;
/// a new key goes last. Entries thus keep the order in which their keys first came.
pub open spec fn insert_entry(m: Seq<(Seq<char>, Seq<char>)>, k: Seq<char>, v: Seq<char>) -> Seq<
    (Seq<char>, Seq<char>),
> {
    let j = key_index(m, k, 0);
    if j < m.len() {
        m.update(j, (k, v))
    } else {
        m.push((k, v))
    }
}

/// No key occurs twice.
pub open spec fn distinct_keys(m: Seq<(Seq<char>, Seq<char>)>) -> bool {
    forall|i: int, j: int| 0 <= i < j < m.len() ==> m[i].0 != m[j].0
}

/// Skipping entries whose key differs does not move the found index.
pub proof fn lemma_key_index_skip(m: Seq<(Seq<char>, Seq<char>)>, k: Seq<char>, j: int)
    requires
        0 <= j <= m.len(),
        forall|i: int| 0 <= i < j ==> m[i].0 != k,
    ensures
        key_index(m, k, 0) == key_index(m, k, j),
    decreases j,
{
    if j > 0 {
        lemma_key_index_skip(m, k, j - 1);
    }
}

/// The found index is the first entry with the key.
pub proof fn lemma_key_index_found(m: Seq<(Seq<char>, Seq<char>)>, k: Seq<char>, j: int)
    requires
        0 <= j <= m.len(),
    ensures
        j <= key_index(m, k, j) <= m.len(),
        key_index(m, k, j) < m.len() ==> m[key_index(m, k, j)].0 == k,
        forall|i: int| j <= i < key_index(m, k, j) ==> m[i].0 != k,
    decreases m.len() - j,
{
    if j < m.len() && m[j].0 != k {
        lemma_key_index_found(m, k, j + 1);
    }
}

/// Inserting keeps keys distinct.
pub proof fn lemma_insert_entry_distinct(m: Seq<(Seq<char>, Seq<char>)>, k: Seq<char>, v: Seq<char>)
    requires
        distinct_keys(m),
    ensures
        distinct_keys(insert_entry(m, k, v)),
        forall|i: int| 0 <= i < insert_entry(m, k, v).len() && insert_entry(m, k, v)[i].0 == k
            ==> insert_entry(m, k, v)[i].1 == v,
{
    lemma_key_index_found(m, k, 0);
}

/// Sets key `k` to `v` in the entries.
pub fn insert_pair(m: &mut Vec<(String, String)>, k: String, v: String)
    ensures
        pair_views(final(m)@) == insert_entry(pair_views(old(m)@), k@, v@),
{
    let ghost mv = pair_views(m@);
    let mut j: usize = 0;
    while j < m.len()
        invariant
            j <= m@.len(),
            m@ == old(m)@,
            mv == pair_views(m@),
            forall|i: int| 0 <= i < j ==> mv[i].0 != k@,
        decreases m@.len() - j,
    {
        if str_eq(m[j].0.as_str(), k.as_str()) {
            proof {
                lemma_key_index_skip(mv, k@, j as int);
            }
            let ghost kv = k@;
            let ghost vv = v@;
            m.set(j, (k, v));
            assert(pair_views(m@) =~= mv.update(j as int, (kv, vv)));
            return;
        }
        j = j + 1;
    }
    proof {
        lemma_key_index_skip(mv, k@, j as int);
    }
    let ghost kv = k@;
    let ghost vv = v@;
    m.push((k, v));
    assert(pair_views(m@) =~= mv.push((kv, vv)));
}

/// The technology stack that an analysis found, field by field, with the
/// dependencies and the critical configuration files it names.
pub struct TechnologyStack {
    pub primary_language: Option<String>,
    pub framework: Option<String>,
    pub runtime: Option<String>,
    pub package_manager: Option<String>,
    pub database: Option<String>,
    pub orm: Option<String>,
    pub testing: Option<String>,
    pub build_tools: Option<String>,
    pub linting: Option<String>,
    pub containerization: Option<String>,
    pub cloud_services: Option<String>,
    pub authentication: Option<String>,
    pub api_type: Option<String>,
    pub architecture_pattern: Option<String>,
    pub dependencies: Vec<(String, String)>,
    pub critical_configs: Vec<(String, String)>,
}

/// A technology stack: its single-valued fields in declaration order, then its two tables.
pub struct TechnologyStackView {
    pub fields: Seq<Option<Seq<char>>>,
    pub dependencies: Seq<(Seq<char>, Seq<char>)>,
    pub critical_configs: Seq<(Seq<char>, Seq<char>)>,
}

/// The number of single-valued fields of a technology stack.
pub open spec fn stack_field_count() -> nat {
    14
}

impl View for TechnologyStack {
    type V = TechnologyStackView;

    open spec fn view(&self) -> TechnologyStackView {
        TechnologyStackView {
            fields: seq![
                opt_view(self.primary_language),
                opt_view(self.framework),
                opt_view(self.runtime),
                opt_view(self.package_manager),
                opt_view(self.database),
                opt_view(self.orm),
                opt_view(self.testing),
                opt_view(self.build_tools),
                opt_view(self.linting),
                opt_view(self.containerization),
                opt_view(self.cloud_services),
                opt_view(self.authentication),
                opt_view(self.api_type),
                opt_view(self.architecture_pattern),
            ],
            dependencies: pair_views(self.dependencies@),
            critical_configs: pair_views(self.critical_configs@),
        }
    }
}

/// A stack with no field set and empty tables.
pub open spec fn empty_stack() -> TechnologyStackView {
    TechnologyStackView {
        fields: Seq::new(stack_field_count(), |i: int| None),
        dependencies: Seq::empty(),
        critical_configs: Seq::empty(),
    }
}

impl Default for TechnologyStack {
    fn default() -> (res: Self)
        ensures
            res@ == empty_stack(),
    {
        let res = TechnologyStack {
            primary_language: None,
            framework: None,
            runtime: None,
            package_manager: None,
            database: None,
            orm: None,
            testing: None,
            build_tools: None,
            linting: None,
            containerization: None,
            cloud_services: None,
            authentication: None,
            api_type: None,
            architecture_pattern: None,
            dependencies: Vec::new(),
            critical_configs: Vec::new(),
        };
        assert(res@.fields =~= empty_stack().fields);
        assert(res@.dependencies =~= empty_stack().dependencies);
        assert(res@.critical_configs =~= empty_stack().critical_configs);
        res
    }
}

impl TechnologyStack {
    /// Sets the single-valued field number `i`.
    pub fn set_field(&mut self, i: usize, v: String)
        requires
            i < stack_field_count(),
        ensures
            final(self)@ == (TechnologyStackView {
                fields: old(self)@.fields.update(i as int, Some(v@)),
                ..old(self)@
            }),
    {
        let ghost vv = v@;
        match i {
            0 => self.primary_language = Some(v),
            1 => self.framework = Some(v),
            2 => self.runtime = Some(v),
            3 => self.package_manager = Some(v),
            4 => self.database = Some(v),
            5 => self.orm = Some(v),
            6 => self.testing = Some(v),
            7 => self.build_tools = Some(v),
            8 => self.linting = Some(v),
            9 => self.containerization = Some(v),
            10 => self.cloud_services = Some(v),
            11 => self.authentication = Some(v),
            12 => self.api_type = Some(v),
            _ => self.architecture_pattern = Some(v),
        }
        assert(self@.fields =~= old(self)@.fields.update(i as int, Some(vv)));
    }
}

/// The view of a technology stack that may be absent.
pub open spec fn stack_view_opt(o: Option<TechnologyStack>) -> Option<TechnologyStackView> {
    match o {
        Some(s) => Some(s@),
        None => None,
    }
}

/// What an analysis of a repository reports.
pub struct AnalysisResponse {
    pub technology_stack: Option<TechnologyStack>,
    pub analysis_summary: String,
    pub changes: Vec<FileChange>,
}

/// An analysis report with its texts as character sequences.
pub struct AnalysisResponseView {
    pub technology_stack: Option<TechnologyStackView>,
    pub analysis_summary: Seq<char>,
    pub changes: Seq<FileChangeView>,
}

impl View for AnalysisResponse {
    type V = AnalysisResponseView;

    open spec fn view(&self) -> AnalysisResponseView {
        AnalysisResponseView {
            technology_stack: stack_view_opt(self.technology_stack),
            analysis_summary: self.analysis_summary@,
            changes: file_change_views(self.changes@),
        }
    }
}

/// A technology stack recommended for a new project: single-valued fields
/// (choices and the reasons for them), then four tables.
pub struct StackRecommendation {
    pub primary_language: Option<String>,
    pub language_reason: Option<String>,
    pub framework: Option<String>,
    pub framework_reason: Option<String>,
    pub runtime: Option<String>,
    pub package_manager: Option<String>,
    pub database: Option<String>,
    pub database_reason: Option<String>,
    pub orm: Option<String>,
    pub testing: Option<String>,
    pub build_tools: Option<String>,
    pub linting: Option<String>,
    pub containerization: Option<String>,
    pub cloud_services: Option<String>,
    pub authentication: Option<String>,
    pub api_type: Option<String>,
    pub api_reason: Option<String>,
    pub architecture_pattern: Option<String>,
    pub architecture_reason: Option<String>,
    pub scalability_considerations: Option<String>,
    pub security_recommendations: Option<String>,
    pub deployment_strategy: Option<String>,
    pub learning_curve: Option<String>,
    pub maintenance_effort: Option<String>,
    pub recommended_dependencies: Vec<(String, String)>,
    pub essential_configs: Vec<(String, String)>,
    pub project_structure: Vec<(String, String)>,
    pub development_workflow: Vec<(String, String)>,
}

/// A recommendation: its single-valued fields in declaration order, then its tables.
pub struct StackRecommendationView {
    pub fields: Seq<Option<Seq<char>>>,
    pub recommended_dependencies: Seq<(Seq<char>, Seq<char>)>,
    pub essential_configs: Seq<(Seq<char>, Seq<char>)>,
    pub project_structure: Seq<(Seq<char>, Seq<char>)>,
    pub development_workflow: Seq<(Seq<char>, Seq<char>)>,
}

/// The number of single-valued fields of a recommendation.
pub open spec fn recommendation_field_count() -> nat {
    24
}

impl View for StackRecommendation {
    type V = StackRecommendationView;

    open spec fn view(&self) -> StackRecommendationView {
        StackRecommendationView {
            fields: seq![
                opt_view(self.primary_language),
                opt_view(self.language_reason),
                opt_view(self.framework),
                opt_view(self.framework_reason),
                opt_view(self.runtime),
                opt_view(self.package_manager),
                opt_view(self.database),
                opt_view(self.database_reason),
                opt_view(self.orm),
                opt_view(self.testing),
                opt_view(self.build_tools),
                opt_view(self.linting),
                opt_view(self.containerization),
                opt_view(self.cloud_services),
                opt_view(self.authentication),
                opt_view(self.api_type),
                opt_view(self.api_reason),
                opt_view(self.architecture_pattern),
                opt_view(self.architecture_reason),
                opt_view(self.scalability_considerations),
                opt_view(self.security_recommendations),
                opt_view(self.deployment_strategy),
                opt_view(self.learning_curve),
                opt_view(self.maintenance_effort),
            ],
            recommended_dependencies: pair_views(self.recommended_dependencies@),
            essential_configs: pair_views(self.essential_configs@),
            project_structure: pair_views(self.project_structure@),
            development_workflow: pair_views(self.development_workflow@),
        }
    }
}

/// A recommendation with no field set and empty tables.
pub open spec fn empty_recommendation() -> StackRecommendationView {
    StackRecommendationView {
        fields: Seq::new(recommendation_field_count(), |i: int| None),
        recommended_dependencies: Seq::empty(),
        essential_configs: Seq::empty(),
        project_structure: Seq::empty(),
        development_workflow: Seq::empty(),
    }
}

impl Default for StackRecommendation {
    fn default() -> (res: Self)
        ensures
            res@ == empty_recommendation(),
    {
        let res = StackRecommendation {
            primary_language: None,
            language_reason: None,
            framework: None,
            framework_reason: None,
            runtime: None,
            package_manager: None,
            database: None,
            database_reason: None,
            orm: None,
            testing: None,
            build_tools: None,
            linting: None,
            containerization: None,
            cloud_services: None,
            authentication: None,
            api_type: None,
            api_reason: None,
            architecture_pattern: None,
            architecture_reason: None,
            scalability_considerations: None,
            security_recommendations: None,
            deployment_strategy: None,
            learning_curve: None,
            maintenance_effort: None,
            recommended_dependencies: Vec::new(),
            essential_configs: Vec::new(),
            project_structure: Vec::new(),
            development_workflow: Vec::new(),
        };
        assert(res@.fields =~= empty_recommendation().fields);
        assert(res@.recommended_dependencies =~= empty_recommendation().recommended_dependencies);
        assert(res@.essential_configs =~= empty_recommendation().essential_configs);
        assert(res@.project_structure =~= empty_recommendation().project_structure);
        assert(res@.development_workflow =~= empty_recommendation().development_workflow);
        res
    }
}

impl StackRecommendation {
    /// Sets the single-valued field number `i`.
    pub fn set_field(&mut self, i: usize, v: String)
        requires
            i < recommendation_field_count(),
        ensures
            final(self)@ == (StackRecommendationView {
                fields: old(self)@.fields.update(i as int, Some(v@)),
                ..old(self)@
            }),
    {
        let ghost vv = v@;
        match i {
            0 => self.primary_language = Some(v),
            1 => self.language_reason = Some(v),
            2 => self.framework = Some(v),
            3 => self.framework_reason = Some(v),
            4 => self.runtime = Some(v),
            5 => self.package_manager = Some(v),
            6 => self.database = Some(v),
            7 => self.database_reason = Some(v),
            8 => self.orm = Some(v),
            9 => self.testing = Some(v),
            10 => self.build_tools = Some(v),
            11 => self.linting = Some(v),
            12 => self.containerization = Some(v),
            13 => self.cloud_services = Some(v),
            14 => self.authentication = Some(v),
            15 => self.api_type = Some(v),
            16 => self.api_reason = Some(v),
            17 => self.architecture_pattern = Some(v),
            18 => self.architecture_reason = Some(v),
            19 => self.scalability_considerations = Some(v),
            20 => self.security_recommendations = Some(v),
            21 => self.deployment_strategy = Some(v),
            22 => self.learning_curve = Some(v),
            _ => self.maintenance_effort = Some(v),
        }
        assert(self@.fields =~= old(self)@.fields.update(i as int, Some(vv)));
    }
}

} // verus!
