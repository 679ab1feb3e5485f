//! The mutation engine: tries the rules in order and, with the first one
//! that accepts the namespace's name, writes the project identifier into
//! copies of the namespace's annotations and labels.

use crate::matcher::{kind_of, verdict, InvalidPattern};
use crate::metadata::Metadata;
use crate::settings::{Project, Settings};
use vstd::prelude::*;
use vstd::string::StringExecFns;

verus! {

/// What the engine reads of a namespace.
pub struct NamespaceView {
    pub name: String,
    pub annotations: Metadata,
    pub labels: Metadata,
}

/// What the engine decides for a namespace.
pub enum MutationResult {
    /// No rule accepted the name.
    Unchanged,
    /// A rule accepted the name: the annotations and the labels, in this
    /// order, with the project identifier written into them.
    Mutated(Metadata, Metadata),
}

/// The rule at `rule_index` holds a pattern that is no regular expression.
pub struct InvalidPatternError {
    pub pattern: String,
    pub rule_index: usize,
}

/// The key under which the project identifier is written.
pub open spec fn project_id_key() -> Seq<char> {
    "field.cattle.io/projectId"@
}

/// The project identifier as an annotation carries it.
pub open spec fn annotation_value(cluster_name: Seq<char>, project_name: Seq<char>) -> Seq<char> {
    cluster_name + ":"@ + project_name
}

/// What the matcher answers for `rule` and `name`.
pub open spec fn rule_verdict(rule: Project, name: Seq<char>) -> Option<bool> {
    verdict(kind_of(rule.match_type@), rule.namespace_match@, name)
}

/// The first position from `from` on whose rule accepts `name` or is
/// refused; the number of rules if there is none.
pub open spec fn first_decisive(rules: Seq<Project>, name: Seq<char>, from: int) -> int
    decreases rules.len() - from,
{
    if from < 0 || from >= rules.len() {
        rules.len() as int
    } else if rule_verdict(rules[from], name) != Some(false) {
        from
    } else {
        first_decisive(rules, name, from + 1)
    }
}

/// The engine's decision over plain values.
pub enum Outcome {
    Unchanged,
    Mutated { annotations: Map<Seq<char>, Seq<char>>, labels: Map<Seq<char>, Seq<char>> },
    Invalid { rule_index: int, pattern: Seq<char> },
}

/// The decision for a namespace called `name` that carries `annotations`
/// and `labels`, under the rules `rules` of the cluster `cluster_name`.
pub open spec fn outcome(
    cluster_name: Seq<char>,
    rules: Seq<Project>,
    name: Seq<char>,
    annotations: Map<Seq<char>, Seq<char>>,
    labels: Map<Seq<char>, Seq<char>>,
) -> Outcome {
    let i = first_decisive(rules, name, 0);
    if i >= rules.len() {
        Outcome::Unchanged
    } else if rule_verdict(rules[i], name).is_none() {
        Outcome::Invalid { rule_index: i, pattern: rules[i].namespace_match@ }
    } else {
        Outcome::Mutated {
            annotations: annotations.insert(
                project_id_key(),
                annotation_value(cluster_name, rules[i].project_name@),
            ),
            labels: labels.insert(project_id_key(), rules[i].project_name@),
        }
    }
}

/// What a returned value says, over plain values.
pub open spec fn result_outcome(r: Result<MutationResult, InvalidPatternError>) -> Outcome {
    match r {
        Ok(MutationResult::Unchanged) => Outcome::Unchanged,
        Ok(MutationResult::Mutated(annotations, labels)) => Outcome::Mutated {
            annotations: annotations@,
            labels: labels@,
        },
        Err(e) => Outcome::Invalid { rule_index: e.rule_index as int, pattern: e.pattern@ },
    }
}

/// The decisive position is the least one whose rule does not answer "no":
/// every rule from `from` up to it rejects the name, and the rule at it,
/// where there is one, accepts the name or is refused.
pub proof fn first_decisive_is_least(rules: Seq<Project>, name: Seq<char>, from: int)
    requires
        0 <= from <= rules.len(),
    ensures
        from <= first_decisive(rules, name, from) <= rules.len(),
        forall|j: int|
            from <= j < first_decisive(rules, name, from) ==> rule_verdict(#[trigger] rules[j], name)
                == Some(false),
        first_decisive(rules, name, from) < rules.len() ==> rule_verdict(
            rules[first_decisive(rules, name, from)],
            name,
        ) != Some(false),
    decreases rules.len() - from,
{
    if from < rules.len() && rule_verdict(rules[from], name) == Some(false) {
        first_decisive_is_least(rules, name, from + 1);
    }
}

/// Where every rule from `from` up to `i` rejects the name and the rule at
/// `i` does not, `i` is the decisive position.
pub proof fn first_decisive_found(rules: Seq<Project>, name: Seq<char>, from: int, i: int)
    requires
        0 <= from <= i < rules.len(),
        forall|j: int| from <= j < i ==> rule_verdict(#[trigger] rules[j], name) == Some(false),
        rule_verdict(rules[i], name) != Some(false),
    ensures
        first_decisive(rules, name, from) == i,
    decreases i - from,
{
    if from < i {
        first_decisive_found(rules, name, from + 1, i);
    }
}

/// Nothing changes if and only if every rule rejects the name.
pub proof fn unchanged_iff_every_rule_rejects(
    cluster_name: Seq<char>,
    rules: Seq<Project>,
    name: Seq<char>,
    annotations: Map<Seq<char>, Seq<char>>,
    labels: Map<Seq<char>, Seq<char>>,
)
    ensures
        outcome(cluster_name, rules, name, annotations, labels) == Outcome::Unchanged <==> (
        forall|j: int|
            0 <= j < rules.len() ==> rule_verdict(#[trigger] rules[j], name) == Some(false)),
{
    first_decisive_is_least(rules, name, 0);
}

/// Without rules nothing changes.
pub proof fn no_rules_no_change(
    cluster_name: Seq<char>,
    name: Seq<char>,
    annotations: Map<Seq<char>, Seq<char>>,
    labels: Map<Seq<char>, Seq<char>>,
)
    ensures
        outcome(cluster_name, Seq::<Project>::empty(), name, annotations, labels)
            == Outcome::Unchanged,
{
}

/// The first rule that accepts the name decides, whatever rules follow it:
/// where the rules before `i` reject the name and the rule at `i` accepts
/// it, the project written is that of the rule at `i`.
pub proof fn first_accepting_rule_wins(
    cluster_name: Seq<char>,
    rules: Seq<Project>,
    name: Seq<char>,
    annotations: Map<Seq<char>, Seq<char>>,
    labels: Map<Seq<char>, Seq<char>>,
    i: int,
)
    requires
        0 <= i < rules.len(),
        forall|j: int| 0 <= j < i ==> rule_verdict(#[trigger] rules[j], name) == Some(false),
        rule_verdict(rules[i], name) == Some(true),
    ensures
        outcome(cluster_name, rules, name, annotations, labels) == (Outcome::Mutated {
            annotations: annotations.insert(
                project_id_key(),
                annotation_value(cluster_name, rules[i].project_name@),
            ),
            labels: labels.insert(project_id_key(), rules[i].project_name@),
        }),
{
    first_decisive_found(rules, name, 0, i);
}

/// Deciding again on what a mutation returned changes nothing more: the
/// project identifier is overwritten with the same value, and every other
/// key keeps its value.
pub proof fn mutation_is_idempotent(
    cluster_name: Seq<char>,
    rules: Seq<Project>,
    name: Seq<char>,
    annotations: Map<Seq<char>, Seq<char>>,
    labels: Map<Seq<char>, Seq<char>>,
)
    ensures
        outcome(cluster_name, rules, name, annotations, labels) matches Outcome::Mutated {
            annotations: a,
            labels: l,
        } ==> outcome(cluster_name, rules, name, a, l) == outcome(
            cluster_name,
            rules,
            name,
            annotations,
            labels,
        ) && a.dom() == annotations.dom().insert(project_id_key()) && l.dom()
            == labels.dom().insert(project_id_key()),
{
    let first = outcome(cluster_name, rules, name, annotations, labels);
    if let Outcome::Mutated { annotations: a, labels: l } = first {
        let i = first_decisive(rules, name, 0);
        let id = annotation_value(cluster_name, rules[i].project_name@);
        assert(a.insert(project_id_key(), id) =~= a);
        assert(l.insert(project_id_key(), rules[i].project_name@) =~= l);
        assert(a.dom() =~= annotations.dom().insert(project_id_key()));
        assert(l.dom() =~= labels.dom().insert(project_id_key()));
    }
}

/// The value of the annotation for a project of a cluster.
pub fn project_annotation(cluster_name: &str, project_name: &str) -> (r: String)
    ensures
        r@ == annotation_value(cluster_name@, project_name@),
{
    cluster_name.to_owned().concat(":").concat(project_name)
}

/// Finds the rule that decides for `name`: the position of the first rule
/// that accepts it, `None` where no rule does, or the error of the first
/// refused pattern if that rule stands before any that accepts.
pub fn first_match(settings: &Settings, name: &str) -> (r: Result<Option<usize>, InvalidPatternError>)
    ensures
        ({
            let rules = settings.projects@;
            let d = first_decisive(rules, name@, 0);
            match r {
                Ok(None) => d == rules.len(),
                Ok(Some(i)) => i == d && d < rules.len() && rule_verdict(rules[d], name@) == Some(
                    true,
                ),
                Err(e) => e.rule_index == d && d < rules.len() && rule_verdict(rules[d], name@)
                    == None::<bool> && e.pattern@ == rules[d].namespace_match@,
            }
        }),
{
    let mut i: usize = 0;
    while i < settings.projects.len()
        invariant
            i <= settings.projects.len(),
            first_decisive(settings.projects@, name@, 0) == first_decisive(
                settings.projects@,
                name@,
                i as int,
            ),
        decreases settings.projects.len() - i,
    {
        let rule = &settings.projects[i];
        match crate::matcher::matches(
            rule.match_type.as_str(),
            rule.namespace_match.as_str(),
            name,
        ) {
            Ok(true) => {
                return Ok(Some(i));
            },
            Ok(false) => {},
            Err(e) => {
                let InvalidPattern { pattern } = e;
                return Err(InvalidPatternError { pattern, rule_index: i });
            },
        }
        i += 1;
    }
    Ok(None)
}

/// Writes the identifier of `project` into copies of the annotations and
/// labels of `ns`. What `ns` holds stays as it is.
pub fn mutate(cluster_name: &str, project: &Project, ns: &NamespaceView) -> (r: MutationResult)
    ensures
        r matches MutationResult::Mutated(annotations, labels) && annotations@
            == ns.annotations@.insert(
            project_id_key(),
            annotation_value(cluster_name@, project.project_name@),
        ) && labels@ == ns.labels@.insert(project_id_key(), project.project_name@),
{
    let mut annotations = ns.annotations.snapshot();
    let mut labels = ns.labels.snapshot();
    annotations.insert(
        "field.cattle.io/projectId".to_owned(),
        project_annotation(cluster_name, project.project_name.as_str()),
    );
    labels.insert("field.cattle.io/projectId".to_owned(), project.project_name.clone());
    MutationResult::Mutated(annotations, labels)
}

/// Decides for the namespace `ns` under `settings`. The rules are tried in
/// order; the first that accepts the name gives its project, and no later
/// rule is looked at. A refused pattern met before that is an error.
pub fn evaluate(settings: &Settings, ns: &NamespaceView) -> (r: Result<
    MutationResult,
    InvalidPatternError,
>)
    ensures
        result_outcome(r) == outcome(
            settings.cluster_name@,
            settings.projects@,
            ns.name@,
            ns.annotations@,
            ns.labels@,
        ),
{
    match first_match(settings, ns.name.as_str()) {
        Err(e) => Err(e),
        Ok(None) => Ok(MutationResult::Unchanged),
        Ok(Some(i)) => Ok(mutate(settings.cluster_name.as_str(), &settings.projects[i], ns)),
    }
}

} // verus!
