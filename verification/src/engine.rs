//! The threat pattern engine: an ordered list of matching rules that
//! scores function signatures and flags their dangerous parameters.
//!
//! Matching is case-sensitive, unanchored and unnormalized: a pattern
//! entry matches when it occurs as a substring of the target. A
//! signature's risk score is the maximum score of the patterns whose
//! function-name entries match the name — never a sum. Every matching
//! entry leaves a note, and every parameter-pattern entry matching a
//! parameter's type flags that parameter once more.

use vstd::prelude::*;

use crate::assets::Parameter;
use crate::assets::ParameterView;
use crate::assets::clone_params;
use crate::seqs::lemma_filter_push;
use crate::seqs::lemma_map_values_add;
use crate::seqs::lemma_take_all;
use crate::seqs::lemma_take_push;
use crate::strings::contains_substring;
use crate::strings::is_substring_of;

verus! {

/// One matching rule: substring patterns for function names, substring
/// patterns for parameter types, and the risk score the rule assigns,
/// on the scale from 0 to 100.
///
/// A rule is distinct from a stored threat definition: the rule matches
/// and scores per run, the definition says what to check.
#[derive(Debug, PartialEq)]
pub struct ThreatPattern {
    pub function_patterns: Vec<String>,
    pub parameter_patterns: Vec<String>,
    pub risk_score: u32,
}

/// Mathematical model of a [`ThreatPattern`].
#[verifier::ext_equal]
pub struct ThreatPatternView {
    pub function_patterns: Seq<Seq<char>>,
    pub parameter_patterns: Seq<Seq<char>>,
    pub risk_score: u32,
}

impl View for ThreatPattern {
    type V = ThreatPatternView;

    open spec fn view(&self) -> ThreatPatternView {
        ThreatPatternView {
            function_patterns: self.function_patterns.deep_view(),
            parameter_patterns: self.parameter_patterns.deep_view(),
            risk_score: self.risk_score,
        }
    }
}

impl DeepView for ThreatPattern {
    type V = ThreatPatternView;

    open spec fn deep_view(&self) -> ThreatPatternView {
        self.view()
    }
}

impl Clone for ThreatPattern {
    fn clone(&self) -> (res: Self)
        ensures
            res@ == self@,
    {
        let res = ThreatPattern {
            function_patterns: crate::assets::clone_strings(&self.function_patterns),
            parameter_patterns: crate::assets::clone_strings(&self.parameter_patterns),
            risk_score: self.risk_score,
        };
        proof {
            assert(res@ =~~= self@);
        }
        res
    }
}

/// One function signature under analysis: its name and parameters.
#[derive(Debug, PartialEq)]
pub struct FunctionSignature {
    pub name: String,
    pub parameters: Vec<Parameter>,
}

/// Mathematical model of a [`FunctionSignature`].
#[verifier::ext_equal]
pub struct FunctionSignatureView {
    pub name: Seq<char>,
    pub parameters: Seq<ParameterView>,
}

impl View for FunctionSignature {
    type V = FunctionSignatureView;

    open spec fn view(&self) -> FunctionSignatureView {
        FunctionSignatureView { name: self.name@, parameters: self.parameters.deep_view() }
    }
}

impl DeepView for FunctionSignature {
    type V = FunctionSignatureView;

    open spec fn deep_view(&self) -> FunctionSignatureView {
        self.view()
    }
}

impl Clone for FunctionSignature {
    fn clone(&self) -> (res: Self)
        ensures
            res@ == self@,
    {
        let res = FunctionSignature {
            name: self.name.clone(),
            parameters: clone_params(&self.parameters),
        };
        proof {
            assert(res@ =~~= self@);
        }
        res
    }
}

/// The engine's verdict on one signature: the signature, its risk score,
/// the flagged parameters (one copy per matching entry), and one note per
/// matched pattern entry.
#[derive(Debug, PartialEq)]
pub struct FunctionThreatAnalysis {
    pub function: FunctionSignature,
    pub risk_score: u32,
    pub dangerous_params: Vec<Parameter>,
    pub matched_patterns: Vec<String>,
}

/// Mathematical model of a [`FunctionThreatAnalysis`].
#[verifier::ext_equal]
pub struct FunctionThreatAnalysisView {
    pub function: FunctionSignatureView,
    pub risk_score: u32,
    pub dangerous_params: Seq<ParameterView>,
    pub matched_patterns: Seq<Seq<char>>,
}

impl View for FunctionThreatAnalysis {
    type V = FunctionThreatAnalysisView;

    open spec fn view(&self) -> FunctionThreatAnalysisView {
        FunctionThreatAnalysisView {
            function: self.function@,
            risk_score: self.risk_score,
            dangerous_params: self.dangerous_params.deep_view(),
            matched_patterns: self.matched_patterns.deep_view(),
        }
    }
}

impl DeepView for FunctionThreatAnalysis {
    type V = FunctionThreatAnalysisView;

    open spec fn deep_view(&self) -> FunctionThreatAnalysisView {
        self.view()
    }
}

/// The substring test against one target, as a function value for
/// `filter`.
pub open spec fn match_pred(target: Seq<char>) -> spec_fn(Seq<char>) -> bool {
    |e: Seq<char>| is_substring_of(e, target)
}

/// The function-name entries of one pattern that match a name, in order.
pub open spec fn pattern_name_notes(p: ThreatPatternView, name: Seq<char>) -> Seq<Seq<char>> {
    p.function_patterns.filter(match_pred(name))
}

/// Whether any function-name entry of the pattern matches the name.
pub open spec fn pattern_matches_name(p: ThreatPatternView, name: Seq<char>) -> bool {
    pattern_name_notes(p, name).len() > 0
}

/// The risk score of a name: the maximum score of the matching patterns,
/// zero when none matches.
pub open spec fn name_score(patterns: Seq<ThreatPatternView>, name: Seq<char>) -> u32
    decreases patterns.len(),
{
    if patterns.len() == 0 {
        0
    } else {
        let rest = name_score(patterns.drop_last(), name);
        let p = patterns.last();
        if pattern_matches_name(p, name) && p.risk_score > rest {
            p.risk_score
        } else {
            rest
        }
    }
}

/// The match notes of a name: the matching function-name entries, in
/// pattern order, then entry order.
pub open spec fn name_notes(patterns: Seq<ThreatPatternView>, name: Seq<char>) -> Seq<Seq<char>>
    decreases patterns.len(),
{
    if patterns.len() == 0 {
        Seq::empty()
    } else {
        name_notes(patterns.drop_last(), name) + pattern_name_notes(patterns.last(), name)
    }
}

/// The parameter entries of one pattern that match a parameter type, in
/// order.
pub open spec fn pattern_param_notes(p: ThreatPatternView, ptype: Seq<char>) -> Seq<Seq<char>> {
    p.parameter_patterns.filter(match_pred(ptype))
}

/// The match notes of one parameter type across all patterns, in order.
pub open spec fn param_notes_one(patterns: Seq<ThreatPatternView>, ptype: Seq<char>) -> Seq<
    Seq<char>,
>
    decreases patterns.len(),
{
    if patterns.len() == 0 {
        Seq::empty()
    } else {
        param_notes_one(patterns.drop_last(), ptype) + pattern_param_notes(patterns.last(), ptype)
    }
}

/// The match notes of a whole parameter list: parameter order first, then
/// pattern order, then entry order.
pub open spec fn spec_param_notes(patterns: Seq<ThreatPatternView>, params: Seq<ParameterView>) -> Seq<
    Seq<char>,
>
    decreases params.len(),
{
    if params.len() == 0 {
        Seq::empty()
    } else {
        spec_param_notes(patterns, params.drop_last()) + param_notes_one(
            patterns,
            params.last().param_type,
        )
    }
}

/// A constant function onto one parameter, as a function value for
/// `map_values`.
pub open spec fn const_param(param: ParameterView) -> spec_fn(Seq<char>) -> ParameterView {
    |e: Seq<char>| param
}

/// The flagged copies of one parameter: one per matching entry.
pub open spec fn dangerous_one(patterns: Seq<ThreatPatternView>, param: ParameterView) -> Seq<
    ParameterView,
> {
    param_notes_one(patterns, param.param_type).map_values(const_param(param))
}

/// The flagged parameters of a whole list, duplicates allowed, in
/// parameter order.
pub open spec fn spec_dangerous(patterns: Seq<ThreatPatternView>, params: Seq<ParameterView>) -> Seq<
    ParameterView,
>
    decreases params.len(),
{
    if params.len() == 0 {
        Seq::empty()
    } else {
        spec_dangerous(patterns, params.drop_last()) + dangerous_one(patterns, params.last())
    }
}

/// The engine's verdict on one signature.
pub open spec fn spec_analysis(patterns: Seq<ThreatPatternView>, f: FunctionSignatureView) -> FunctionThreatAnalysisView {
    FunctionThreatAnalysisView {
        function: f,
        risk_score: name_score(patterns, f.name),
        dangerous_params: spec_dangerous(patterns, f.parameters),
        matched_patterns: name_notes(patterns, f.name) + spec_param_notes(patterns, f.parameters),
    }
}

/// Adding a pattern never lowers a signature's risk score: the score is a
/// maximum over the matching patterns, and a longer list can only match
/// more.
pub proof fn lemma_analysis_monotonic(
    patterns: Seq<ThreatPatternView>,
    p: ThreatPatternView,
    f: FunctionSignatureView,
)
    ensures
        name_score(patterns.push(p), f.name) >= name_score(patterns, f.name),
        spec_analysis(patterns.push(p), f).risk_score >= spec_analysis(patterns, f).risk_score,
{
    assert(patterns.push(p).drop_last() =~= patterns);
    assert(patterns.push(p).last() == p);
}

/// The ordered rule list, applied to one signature at a time.
#[derive(Debug)]
pub struct ThreatPatternEngine {
    pub patterns: Vec<ThreatPattern>,
}

impl View for ThreatPatternEngine {
    type V = Seq<ThreatPatternView>;

    open spec fn view(&self) -> Seq<ThreatPatternView> {
        self.patterns.deep_view()
    }
}

impl ThreatPatternEngine {
    /// An engine with no rules yet.
    pub fn new() -> (r: ThreatPatternEngine)
        ensures
            r@ == Seq::<ThreatPatternView>::empty(),
    {
        let r = ThreatPatternEngine { patterns: Vec::new() };
        proof {
            assert(r@ =~~= Seq::<ThreatPatternView>::empty());
        }
        r
    }

    /// Appends one rule to the ordered list.
    pub fn add_pattern(&mut self, pattern: ThreatPattern)
        ensures
            final(self)@ == old(self)@.push(pattern@),
    {
        let ghost pv: ThreatPatternView = pattern@;
        let ghost before: Seq<ThreatPatternView> = self@;
        self.patterns.push(pattern);
        proof {
            assert(self@ =~~= before.push(pv));
        }
    }

    /// Scores one signature: the risk score is the maximum over patterns
    /// with a matching function-name entry; every matching entry leaves a
    /// note, and every parameter-pattern entry matching a parameter's
    /// type flags that parameter once more.
    pub fn analyze_function(&self, sig: &FunctionSignature) -> (r: FunctionThreatAnalysis)
        ensures
            r@ == spec_analysis(self@, sig@),
    {
        let ghost pv: Seq<ThreatPatternView> = self@;
        let ghost namev: Seq<char> = sig@.name;
        let mut risk_score: u32 = 0;
        let mut matched_patterns: Vec<String> = Vec::new();
        let mut i: usize = 0;
        while i < self.patterns.len()
            invariant
                i <= self.patterns@.len(),
                pv == self@,
                pv.len() == self.patterns@.len(),
                namev == sig@.name,
                risk_score == name_score(pv.take(i as int), namev),
                matched_patterns.deep_view() =~~= name_notes(pv.take(i as int), namev),
            decreases self.patterns@.len() - i,
        {
            let p = &self.patterns[i];
            assert(p@ == pv[i as int]);
            let ghost base_score: u32 = risk_score;
            let ghost base_notes: Seq<Seq<char>> = matched_patterns.deep_view();
            let entries = &p.function_patterns;
            let ghost ev: Seq<Seq<char>> = entries.deep_view();
            let mut j: usize = 0;
            while j < entries.len()
                invariant
                    j <= entries@.len(),
                    ev == entries.deep_view(),
                    ev.len() == entries@.len(),
                    namev == sig@.name,
                    p@.risk_score == pv[i as int].risk_score,
                    matched_patterns.deep_view() =~~= base_notes + ev.take(j as int).filter(
                        match_pred(namev),
                    ),
                    risk_score == if ev.take(j as int).filter(match_pred(namev)).len() > 0 {
                        if p@.risk_score > base_score {
                            p@.risk_score
                        } else {
                            base_score
                        }
                    } else {
                        base_score
                    },
                decreases entries@.len() - j,
            {
                let entry = &entries[j];
                assert(entry@ == ev[j as int]);
                proof {
                    lemma_take_push(ev, j as int);
                    lemma_filter_push(ev.take(j as int), match_pred(namev), ev[j as int]);
                }
                if contains_substring(sig.name.as_str(), entry.as_str()) {
                    let ghost top: Seq<Seq<char>> = matched_patterns.deep_view();
                    matched_patterns.push(entry.clone());
                    proof {
                        assert(matched_patterns.deep_view() =~~= top.push(ev[j as int]));
                    }
                    if p.risk_score > risk_score {
                        risk_score = p.risk_score;
                    }
                }
                j += 1;
            }
            proof {
                lemma_take_all(ev);
                assert(ev.filter(match_pred(namev)) == pattern_name_notes(pv[i as int], namev));
                lemma_take_push(pv, i as int);
                assert(pv.take(i + 1).drop_last() =~= pv.take(i as int));
                assert(pv.take(i + 1).last() == pv[i as int]);
                assert(risk_score == name_score(pv.take(i + 1), namev));
                assert(matched_patterns.deep_view() =~~= name_notes(pv.take(i + 1), namev));
            }
            i += 1;
        }
        proof {
            lemma_take_all(pv);
        }
        let ghost final_name_notes: Seq<Seq<char>> = matched_patterns.deep_view();
        let ghost paramsv: Seq<ParameterView> = sig@.parameters;
        let mut dangerous_params: Vec<Parameter> = Vec::new();
        let mut k: usize = 0;
        while k < sig.parameters.len()
            invariant
                k <= sig.parameters@.len(),
                pv == self@,
                namev == sig@.name,
                paramsv == sig@.parameters,
                paramsv.len() == sig.parameters@.len(),
                final_name_notes == name_notes(pv, namev),
                dangerous_params.deep_view() =~~= spec_dangerous(pv, paramsv.take(k as int)),
                matched_patterns.deep_view() =~~= final_name_notes + spec_param_notes(
                    pv,
                    paramsv.take(k as int),
                ),
            decreases sig.parameters@.len() - k,
        {
            let param = &sig.parameters[k];
            assert(param@ == paramsv[k as int]);
            let ghost ptype: Seq<char> = paramsv[k as int].param_type;
            let ghost base_d: Seq<ParameterView> = dangerous_params.deep_view();
            let ghost base_m: Seq<Seq<char>> = matched_patterns.deep_view();
            let mut i2: usize = 0;
            while i2 < self.patterns.len()
                invariant
                    i2 <= self.patterns@.len(),
                    pv == self@,
                    pv.len() == self.patterns@.len(),
                    k < paramsv.len(),
                    param@ == paramsv[k as int],
                    ptype == paramsv[k as int].param_type,
                    dangerous_params.deep_view() =~~= base_d + param_notes_one(
                        pv.take(i2 as int),
                        ptype,
                    ).map_values(const_param(paramsv[k as int])),
                    matched_patterns.deep_view() =~~= base_m + param_notes_one(
                        pv.take(i2 as int),
                        ptype,
                    ),
                decreases self.patterns@.len() - i2,
            {
                let p = &self.patterns[i2];
                assert(p@ == pv[i2 as int]);
                let ghost base2_d: Seq<ParameterView> = dangerous_params.deep_view();
                let ghost base2_m: Seq<Seq<char>> = matched_patterns.deep_view();
                let entries = &p.parameter_patterns;
                let ghost ev: Seq<Seq<char>> = entries.deep_view();
                let mut j2: usize = 0;
                while j2 < entries.len()
                    invariant
                        j2 <= entries@.len(),
                        ev == entries.deep_view(),
                        ev.len() == entries@.len(),
                        k < paramsv.len(),
                        param@ == paramsv[k as int],
                        ptype == paramsv[k as int].param_type,
                        dangerous_params.deep_view() =~~= base2_d + ev.take(j2 as int).filter(
                            match_pred(ptype),
                        ).map_values(const_param(paramsv[k as int])),
                        matched_patterns.deep_view() =~~= base2_m + ev.take(j2 as int).filter(
                            match_pred(ptype),
                        ),
                    decreases entries@.len() - j2,
                {
                    let entry = &entries[j2];
                    assert(entry@ == ev[j2 as int]);
                    proof {
                        lemma_take_push(ev, j2 as int);
                        lemma_filter_push(ev.take(j2 as int), match_pred(ptype), ev[j2 as int]);
                        crate::seqs::lemma_map_values_push(
                            ev.take(j2 as int).filter(match_pred(ptype)),
                            const_param(paramsv[k as int]),
                            ev[j2 as int],
                        );
                    }
                    if contains_substring(param.param_type.as_str(), entry.as_str()) {
                        let ghost top_d: Seq<ParameterView> = dangerous_params.deep_view();
                        let ghost top_m: Seq<Seq<char>> = matched_patterns.deep_view();
                        dangerous_params.push(param.clone());
                        matched_patterns.push(entry.clone());
                        proof {
                            assert(dangerous_params.deep_view() =~~= top_d.push(
                                paramsv[k as int],
                            ));
                            assert(matched_patterns.deep_view() =~~= top_m.push(ev[j2 as int]));
                        }
                    }
                    j2 += 1;
                }
                proof {
                    lemma_take_all(ev);
                    assert(ev.filter(match_pred(ptype)) == pattern_param_notes(
                        pv[i2 as int],
                        ptype,
                    ));
                    lemma_take_push(pv, i2 as int);
                    assert(pv.take(i2 + 1).drop_last() =~= pv.take(i2 as int));
                    assert(pv.take(i2 + 1).last() == pv[i2 as int]);
                    lemma_map_values_add(
                        param_notes_one(pv.take(i2 as int), ptype),
                        pattern_param_notes(pv[i2 as int], ptype),
                        const_param(paramsv[k as int]),
                    );
                    assert(matched_patterns.deep_view() =~~= base_m + param_notes_one(
                        pv.take(i2 + 1),
                        ptype,
                    ));
                    assert(dangerous_params.deep_view() =~~= base_d + param_notes_one(
                        pv.take(i2 + 1),
                        ptype,
                    ).map_values(const_param(paramsv[k as int])));
                }
                i2 += 1;
            }
            proof {
                lemma_take_all(pv);
                lemma_take_push(paramsv, k as int);
                assert(paramsv.take(k + 1).drop_last() =~= paramsv.take(k as int));
                assert(paramsv.take(k + 1).last() == paramsv[k as int]);
                assert(dangerous_params.deep_view() =~~= spec_dangerous(pv, paramsv.take(k + 1)));
                assert(matched_patterns.deep_view() =~~= final_name_notes + spec_param_notes(
                    pv,
                    paramsv.take(k + 1),
                ));
            }
            k += 1;
        }
        proof {
            lemma_take_all(paramsv);
        }
        let function = sig.clone();
        let r = FunctionThreatAnalysis { function, risk_score, dangerous_params, matched_patterns };
        proof {
            assert(r@ =~~= spec_analysis(self@, sig@));
        }
        r
    }
}


/// Non-increasing order of risk scores.
pub open spec fn sorted_by_risk(s: Seq<FunctionThreatAnalysisView>) -> bool {
    forall|i: int, j: int|
        0 <= i < j < s.len() ==> (#[trigger] s[i]).risk_score >= (#[trigger] s[j]).risk_score
}

/// The filter for one exact risk score.
pub open spec fn score_pred(t: u32) -> spec_fn(FunctionThreatAnalysisView) -> bool {
    |a: FunctionThreatAnalysisView| a.risk_score == t
}

/// The per-signature verdict, as a function value for `map_values`.
pub open spec fn analysis_map(patterns: Seq<ThreatPatternView>) -> spec_fn(FunctionSignatureView) -> FunctionThreatAnalysisView {
    |f: FunctionSignatureView| spec_analysis(patterns, f)
}

/// The verdicts on a list of signatures, in input order.
pub open spec fn analyses_of(
    patterns: Seq<ThreatPatternView>,
    fs: Seq<FunctionSignatureView>,
) -> Seq<FunctionThreatAnalysisView> {
    fs.map_values(analysis_map(patterns))
}

/// Inserting a verdict after every equal score and before every lower one
/// appends it to the subsequence of its own score and leaves every other
/// score's subsequence alone: the step that makes the sort stable.
proof fn lemma_insert_filter(s: Seq<FunctionThreatAnalysisView>, pos: int, a: FunctionThreatAnalysisView, t: u32)
    requires
        0 <= pos <= s.len(),
        forall|k: int| pos <= k < s.len() ==> (#[trigger] s[k]).risk_score < a.risk_score,
    ensures
        s.insert(pos, a).filter(score_pred(t)) == if t == a.risk_score {
            s.filter(score_pred(t)).push(a)
        } else {
            s.filter(score_pred(t))
        },
{
    let pre = s.subrange(0, pos);
    let post = s.subrange(pos, s.len() as int);
    let pred = score_pred(t);
    Seq::filter_distributes_over_add(pre.push(a), post, pred);
    lemma_filter_push(pre, pred, a);
    Seq::filter_distributes_over_add(pre, post, pred);
    assert(pre + post =~= s);
    if t == a.risk_score {
        assert forall|k: int| 0 <= k < post.len() implies !pred(#[trigger] post[k]) by {
            assert(post[k] == s[pos + k]);
        }
        crate::seqs::lemma_filter_none(post, pred);
        assert(s.insert(pos, a).filter(pred) =~= s.filter(pred).push(a));
    } else {
        assert(s.insert(pos, a).filter(pred) =~= s.filter(pred));
    }
}

impl ThreatPatternEngine {
    /// Scores every signature and returns the verdicts sorted by risk
    /// score, highest first. The sort is stable: for every score, the
    /// verdicts carrying it keep their input order, so ties come out as
    /// they went in.
    pub fn analyze_functions(&self, functions: &Vec<FunctionSignature>) -> (r: Vec<
        FunctionThreatAnalysis,
    >)
        ensures
            r.deep_view().len() == functions@.len(),
            sorted_by_risk(r.deep_view()),
            forall|t: u32|
                #[trigger] r.deep_view().filter(score_pred(t)) == analyses_of(
                    self@,
                    functions.deep_view(),
                ).filter(score_pred(t)),
    {
        let ghost pv: Seq<ThreatPatternView> = self@;
        let ghost fsv: Seq<FunctionSignatureView> = functions.deep_view();
        let mut out: Vec<FunctionThreatAnalysis> = Vec::new();
        let mut i: usize = 0;
        while i < functions.len()
            invariant
                i <= functions@.len(),
                pv == self@,
                fsv == functions.deep_view(),
                fsv.len() == functions@.len(),
                out.deep_view().len() == i,
                sorted_by_risk(out.deep_view()),
                forall|t: u32|
                    #[trigger] out.deep_view().filter(score_pred(t)) == analyses_of(
                        pv,
                        fsv.take(i as int),
                    ).filter(score_pred(t)),
            decreases functions@.len() - i,
        {
            let a = self.analyze_function(&functions[i]);
            assert(functions@[i as int]@ == fsv[i as int]);
            let ghost av: FunctionThreatAnalysisView = a@;
            let mut pos: usize = 0;
            while pos < out.len() && out[pos].risk_score >= a.risk_score
                invariant
                    pos <= out.deep_view().len(),
                    out.deep_view().len() == out@.len(),
                    av == a@,
                    forall|k: int|
                        0 <= k < pos ==> (#[trigger] out.deep_view()[k]).risk_score
                            >= av.risk_score,
                decreases out@.len() - pos,
            {
                assert(out.deep_view()[pos as int].risk_score == out@[pos as int]@.risk_score);
                pos += 1;
            }
            if pos < out.len() {
                assert(out.deep_view()[pos as int].risk_score == out@[pos as int]@.risk_score);
                assert(out.deep_view()[pos as int].risk_score < av.risk_score);
            }
            let ghost before: Seq<FunctionThreatAnalysisView> = out.deep_view();
            proof {
                assert forall|k: int|
                    pos <= k < before.len() implies (#[trigger] before[k]).risk_score
                    < av.risk_score by {
                    if k > pos {
                        assert(before[pos as int].risk_score >= before[k].risk_score);
                    }
                }
            }
            out.insert(pos, a);
            proof {
                assert(out.deep_view() =~~= before.insert(pos as int, av));
                before.insert_ensures(pos as int, av);
                assert forall|x: int, y: int|
                    0 <= x < y < out.deep_view().len() implies (#[trigger] out.deep_view()[x]).risk_score
                    >= (#[trigger] out.deep_view()[y]).risk_score by {
                    let n = out.deep_view();
                    if y < pos {
                        assert(n[x] == before[x] && n[y] == before[y]);
                    } else if x > pos {
                        assert(n[x] == before[x - 1] && n[y] == before[y - 1]);
                    } else if x == pos {
                        assert(n[x] == av && n[y] == before[y - 1]);
                    } else if y == pos {
                        assert(n[x] == before[x] && n[y] == av);
                    } else {
                        assert(n[x] == before[x] && n[y] == before[y - 1]);
                        if x < pos && y - 1 >= pos {
                            assert(before[y - 1].risk_score < av.risk_score);
                            assert(before[x].risk_score >= av.risk_score);
                        }
                    }
                }
                lemma_take_push(fsv, i as int);
                crate::seqs::lemma_map_values_push(
                    fsv.take(i as int),
                    analysis_map(pv),
                    fsv[i as int],
                );
                assert forall|t: u32| #[trigger] out.deep_view().filter(score_pred(t))
                    == analyses_of(pv, fsv.take(i + 1)).filter(score_pred(t)) by {
                    lemma_insert_filter(before, pos as int, av, t);
                    lemma_filter_push(analyses_of(pv, fsv.take(i as int)), score_pred(t), av);
                }
            }
            i += 1;
        }
        proof {
            lemma_take_all(fsv);
        }
        out
    }
}

} // verus!
