//! The policy compiler: an accumulating parser object that folds one or
//! more policy sources into a single immutable [`Policy`]. Each
//! `define_program` statement's compiled-in self-tests run the moment the
//! spec is frozen, against the filesystem facts taken right then; a
//! `forbid_program_regex` pattern must compile as a regular expression.
//! Any failure aborts the whole load: a policy that fails to compile is
//! never partially trusted.

use vstd::prelude::*;
use crate::evaluate::{check_self_test, gather_facts, self_test_matches};
use crate::matcher::TokenFacts;
use crate::outside::{regex_match_text, regex_valid};
use crate::pdl_lex::{CompileError, ErrorKind, ErrorKindV};
use crate::pdl_parse::{Stmt, StmtV, parse_model, parse_source};
use crate::policy::{Policy, PolicyV, ProgramSpec, ProgramSpecV, RegexRule};

verus! {

/// The filesystem facts taken for one statement's self-tests: one facts
/// list per `should_match` entry and per `should_not_match` entry.
pub struct StmtFacts {
    pub sm: Vec<Vec<TokenFacts>>,
    pub snm: Vec<Vec<TokenFacts>>,
}

/// Mathematical model of a [`StmtFacts`].
pub struct StmtFactsV {
    pub sm: Seq<Seq<TokenFacts>>,
    pub snm: Seq<Seq<TokenFacts>>,
}

impl View for StmtFacts {
    type V = StmtFactsV;

    open spec fn view(&self) -> StmtFactsV {
        StmtFactsV {
            sm: self.sm@.map_values(|f: Vec<TokenFacts>| f@),
            snm: self.snm@.map_values(|f: Vec<TokenFacts>| f@),
        }
    }
}

/// No facts: for statements without self-tests.
pub open spec fn empty_stmt_facts() -> StmtFactsV {
    StmtFactsV { sm: Seq::empty(), snm: Seq::empty() }
}

/// The facts for statement `k`, or none where the list is short.
pub open spec fn facts_at(fs: Seq<StmtFactsV>, k: int) -> StmtFactsV {
    if 0 <= k < fs.len() {
        fs[k]
    } else {
        empty_stmt_facts()
    }
}

/// The facts list for self-test `t`, or none where the list is short.
pub open spec fn facts_list_at(fss: Seq<Seq<TokenFacts>>, t: int) -> Seq<TokenFacts> {
    if 0 <= t < fss.len() {
        fss[t]
    } else {
        Seq::empty()
    }
}

/// The first `should_match` entry at or after `t` that does not match its
/// spec, or `-1`.
pub open spec fn first_sm_fail(s: ProgramSpecV, fsm: Seq<Seq<TokenFacts>>, t: int) -> int
    decreases s.should_match.len() - t,
{
    if t < 0 || t >= s.should_match.len() {
        -1
    } else if !self_test_matches(s, s.should_match[t], facts_list_at(fsm, t)) {
        t
    } else {
        first_sm_fail(s, fsm, t + 1)
    }
}

/// The first `should_not_match` entry at or after `t` that does match its
/// spec, or `-1`.
pub open spec fn first_snm_pass(s: ProgramSpecV, fsnm: Seq<Seq<TokenFacts>>, t: int) -> int
    decreases s.should_not_match.len() - t,
{
    if t < 0 || t >= s.should_not_match.len() {
        -1
    } else if self_test_matches(s, s.should_not_match[t], facts_list_at(fsnm, t)) {
        t
    } else {
        first_snm_pass(s, fsnm, t + 1)
    }
}

/// What a spec's compiled-in self-tests yield under the given facts: every
/// `should_match` entry must match, and no `should_not_match` entry may.
pub open spec fn self_tests_result(s: ProgramSpecV, f: StmtFactsV) -> Result<(), ErrorKindV> {
    if first_sm_fail(s, f.sm, 0) >= 0 {
        Err(ErrorKindV::SelfTestFailed { program: s.program, expected_match: true })
    } else if first_snm_pass(s, f.snm, 0) >= 0 {
        Err(ErrorKindV::SelfTestFailed { program: s.program, expected_match: false })
    } else {
        Ok(())
    }
}

/// Why one statement fails to fold in, if it does: a failed self-test under
/// the given facts, or an invalid forbidden-program pattern.
pub open spec fn stmt_err(st: StmtV, f: StmtFactsV) -> Option<ErrorKindV> {
    match st {
        StmtV::Define(s) => match self_tests_result(s, f) {
            Ok(_) => None,
            Err(e) => Some(e),
        },
        StmtV::ForbidSubstrings(_) => None,
        StmtV::ForbidProgramRegex(rr) => if regex_valid(rr.pattern) {
            None
        } else {
            Some(ErrorKindV::InvalidRegex { pattern: rr.pattern })
        },
    }
}

/// What one statement adds to the accumulating policy when it folds in.
pub open spec fn stmt_apply(b: PolicyV, st: StmtV) -> PolicyV {
    match st {
        StmtV::Define(s) => PolicyV { programs: b.programs.push(s), ..b },
        StmtV::ForbidSubstrings(ss) => PolicyV {
            forbidden_substrings: b.forbidden_substrings + ss,
            ..b
        },
        StmtV::ForbidProgramRegex(rr) => PolicyV {
            forbidden_program_regexes: b.forbidden_program_regexes.push(rr),
            ..b
        },
    }
}

/// One statement folded into the accumulating policy.
pub open spec fn apply_stmt(b: PolicyV, st: StmtV, f: StmtFactsV) -> Result<PolicyV, ErrorKindV> {
    match stmt_err(st, f) {
        Some(e) => Err(e),
        None => Ok(stmt_apply(b, st)),
    }
}

/// All statements from `k` on folded into the accumulating policy; the
/// first failure aborts.
pub open spec fn apply_stmts(
    b: PolicyV,
    stmts: Seq<StmtV>,
    fs: Seq<StmtFactsV>,
    k: int,
) -> Result<PolicyV, ErrorKindV>
    decreases stmts.len() - k,
{
    if k < 0 {
        Err(ErrorKindV::Syntax { offset: 0 })
    } else if k >= stmts.len() {
        Ok(b)
    } else {
        match apply_stmt(b, stmts[k], facts_at(fs, k)) {
            Ok(b2) => apply_stmts(b2, stmts, fs, k + 1),
            Err(e) => Err(e),
        }
    }
}

/// The policy all statements from `k` on build when none of them fails;
/// the success result never depends on the facts.
pub open spec fn fold_ok(b: PolicyV, stmts: Seq<StmtV>, k: int) -> PolicyV
    decreases stmts.len() - k,
{
    if k < 0 || k >= stmts.len() {
        b
    } else {
        fold_ok(stmt_apply(b, stmts[k]), stmts, k + 1)
    }
}

/// When no statement from `j` on fails, the fold succeeds with the
/// facts-independent result.
pub proof fn lemma_apply_no_err(b: PolicyV, stmts: Seq<StmtV>, fs: Seq<StmtFactsV>, j: int)
    requires
        0 <= j <= stmts.len(),
        forall|q: int| j <= q < stmts.len() ==> stmt_err(#[trigger] stmts[q], facts_at(fs, q))
            is None,
    ensures
        apply_stmts(b, stmts, fs, j) == Ok::<PolicyV, ErrorKindV>(fold_ok(b, stmts, j)),
    decreases stmts.len() - j,
{
    if j < stmts.len() {
        lemma_apply_no_err(stmt_apply(b, stmts[j]), stmts, fs, j + 1);
    }
}

/// When the statements before `k` pass and the one at `k` fails, the fold
/// stops with that statement's error.
pub proof fn lemma_apply_err_at(
    b: PolicyV,
    stmts: Seq<StmtV>,
    fs: Seq<StmtFactsV>,
    j: int,
    k: int,
)
    requires
        0 <= j <= k < stmts.len(),
        forall|q: int| j <= q < k ==> stmt_err(#[trigger] stmts[q], facts_at(fs, q)) is None,
        stmt_err(stmts[k], facts_at(fs, k)) is Some,
    ensures
        apply_stmts(b, stmts, fs, j) == Err::<PolicyV, ErrorKindV>(
            stmt_err(stmts[k], facts_at(fs, k))->Some_0,
        ),
    decreases stmts.len() - j,
{
    if j < k {
        lemma_apply_err_at(stmt_apply(b, stmts[j]), stmts, fs, j + 1, k);
    }
}

/// When the fold succeeds, no statement failed under its facts.
pub proof fn lemma_apply_ok_no_err(b: PolicyV, stmts: Seq<StmtV>, fs: Seq<StmtFactsV>, j: int)
    requires
        0 <= j <= stmts.len(),
        apply_stmts(b, stmts, fs, j) is Ok,
    ensures
        forall|q: int| j <= q < stmts.len() ==> stmt_err(#[trigger] stmts[q], facts_at(fs, q))
            is None,
    decreases stmts.len() - j,
{
    if j < stmts.len() {
        lemma_apply_ok_no_err(stmt_apply(b, stmts[j]), stmts, fs, j + 1);
    }
}

/// The facts for one statement have its self-tests' shape.
pub open spec fn stmt_facts_wf_one(st: StmtV, f: StmtFactsV) -> bool {
    match st {
        StmtV::Define(s) => {
            &&& f.sm.len() == s.should_match.len()
            &&& (forall|t: int|
                0 <= t < s.should_match.len() ==> (#[trigger] f.sm[t]).len()
                    == s.should_match[t].len())
            &&& f.snm.len() == s.should_not_match.len()
            &&& (forall|t: int|
                0 <= t < s.should_not_match.len() ==> (#[trigger] f.snm[t]).len()
                    == s.should_not_match[t].len())
        },
        _ => true,
    }
}

/// The facts have the statements' shape: one facts list per self-test, one
/// entry per test token.
pub open spec fn stmt_facts_wf(stmts: Seq<StmtV>, fs: Seq<StmtFactsV>) -> bool {
    &&& fs.len() == stmts.len()
    &&& forall|k: int| 0 <= k < stmts.len() ==> stmt_facts_wf_one(#[trigger] stmts[k], fs[k])
}

/// Locates the first failing `should_match` self-test: when the tests up to
/// `t` pass and the one at `t` fails (or none is left), the scan from `j`
/// lands on `t` (or on nothing).
proof fn lemma_first_sm_fail(s: ProgramSpecV, fsm: Seq<Seq<TokenFacts>>, t: int, j: int)
    requires
        0 <= j <= t <= s.should_match.len(),
        forall|q: int|
            j <= q < t ==> self_test_matches(
                s,
                #[trigger] s.should_match[q],
                facts_list_at(fsm, q),
            ),
        t < s.should_match.len() ==> !self_test_matches(
            s,
            s.should_match[t],
            facts_list_at(fsm, t),
        ),
    ensures
        first_sm_fail(s, fsm, j) == if t < s.should_match.len() {
            t
        } else {
            -1
        },
    decreases t - j,
{
    if j < t {
        lemma_first_sm_fail(s, fsm, t, j + 1);
    }
}

/// Locates the first passing `should_not_match` self-test, as
/// [`lemma_first_sm_fail`] does for the failing `should_match` one.
proof fn lemma_first_snm_pass(s: ProgramSpecV, fsnm: Seq<Seq<TokenFacts>>, t: int, j: int)
    requires
        0 <= j <= t <= s.should_not_match.len(),
        forall|q: int|
            j <= q < t ==> !self_test_matches(
                s,
                #[trigger] s.should_not_match[q],
                facts_list_at(fsnm, q),
            ),
        t < s.should_not_match.len() ==> self_test_matches(
            s,
            s.should_not_match[t],
            facts_list_at(fsnm, t),
        ),
    ensures
        first_snm_pass(s, fsnm, j) == if t < s.should_not_match.len() {
            t
        } else {
            -1
        },
    decreases t - j,
{
    if j < t {
        lemma_first_snm_pass(s, fsnm, t, j + 1);
    }
}

/// Runs one statement's checks: a `define_program`'s self-tests against
/// facts probed now, and a `forbid_program_regex` pattern's compilation.
/// Yields the statement back with the facts it was vetted under.
#[verifier::loop_isolation(false)]
#[verifier::rlimit(60)]
fn vet_stmt(st: Stmt, identifier: &str) -> (r: Result<(Stmt, StmtFacts), CompileError>)
    ensures
        match r {
            Ok(p) => p.0@ == st@ && stmt_err(st@, p.1@) is None && stmt_facts_wf_one(st@, p.1@),
            Err(ce) => ce@.source == identifier@ && exists|f: StmtFactsV|
                stmt_err(st@, f) == Some(ce@.kind),
        },
{
    match st {
        Stmt::Define(s) => {
            let ghost sv = s@;
            let mut smf: Vec<Vec<TokenFacts>> = Vec::new();
            let mut t: usize = 0;
            while t < s.should_match.len()
                invariant
                    t <= s.should_match@.len(),
                    smf@.len() == t,
                    forall|q: int|
                        0 <= q < t ==> (#[trigger] smf@[q])@.len() == sv.should_match[q].len(),
                    forall|q: int|
                        0 <= q < t ==> self_test_matches(
                            sv,
                            #[trigger] sv.should_match[q],
                            smf@[q]@,
                        ),
                decreases s.should_match@.len() - t,
            {
                proof {
                    assert(sv.should_match[t as int] == s.should_match@[t as int].deep_view());
                }
                let facts = gather_facts(&s.should_match[t]);
                if !check_self_test(&s, &s.should_match[t], &facts) {
                    proof {
                        let smfv = smf@.map_values(|x: Vec<TokenFacts>| x@);
                        let fv = StmtFactsV { sm: smfv.push(facts@), snm: Seq::empty() };
                        assert forall|q: int| 0 <= q < t implies self_test_matches(
                            sv,
                            #[trigger] sv.should_match[q],
                            facts_list_at(fv.sm, q),
                        ) by {
                            assert(fv.sm[q] == smf@[q]@);
                        }
                        assert(facts_list_at(fv.sm, t as int) == facts@);
                        lemma_first_sm_fail(sv, fv.sm, t as int, 0);
                        assert(stmt_err(st@, fv) == Some(
                            ErrorKindV::SelfTestFailed { program: sv.program, expected_match: true },
                        ));
                    }
                    return Err(
                        CompileError {
                            source: identifier.to_owned(),
                            kind: ErrorKind::SelfTestFailed {
                                program: s.program.clone(),
                                expected_match: true,
                            },
                        },
                    );
                }
                smf.push(facts);
                t = t + 1;
            }
            let mut snmf: Vec<Vec<TokenFacts>> = Vec::new();
            let mut u: usize = 0;
            while u < s.should_not_match.len()
                invariant
                    u <= s.should_not_match@.len(),
                    smf@.len() == sv.should_match.len(),
                    forall|q: int|
                        0 <= q < smf@.len() ==> (#[trigger] smf@[q])@.len()
                            == sv.should_match[q].len(),
                    forall|q: int|
                        0 <= q < smf@.len() ==> self_test_matches(
                            sv,
                            #[trigger] sv.should_match[q],
                            smf@[q]@,
                        ),
                    snmf@.len() == u,
                    forall|q: int|
                        0 <= q < u ==> (#[trigger] snmf@[q])@.len()
                            == sv.should_not_match[q].len(),
                    forall|q: int|
                        0 <= q < u ==> !self_test_matches(
                            sv,
                            #[trigger] sv.should_not_match[q],
                            snmf@[q]@,
                        ),
                decreases s.should_not_match@.len() - u,
            {
                proof {
                    assert(sv.should_not_match[u as int] == s.should_not_match@[
                        u as int].deep_view());
                }
                let facts = gather_facts(&s.should_not_match[u]);
                if check_self_test(&s, &s.should_not_match[u], &facts) {
                    proof {
                        let smfv = smf@.map_values(|x: Vec<TokenFacts>| x@);
                        let snmfv = snmf@.map_values(|x: Vec<TokenFacts>| x@);
                        let fv = StmtFactsV { sm: smfv, snm: snmfv.push(facts@) };
                        assert forall|q: int| 0 <= q < smf@.len() implies self_test_matches(
                            sv,
                            #[trigger] sv.should_match[q],
                            facts_list_at(fv.sm, q),
                        ) by {
                            assert(fv.sm[q] == smf@[q]@);
                        }
                        lemma_first_sm_fail(sv, fv.sm, sv.should_match.len() as int, 0);
                        assert forall|q: int| 0 <= q < u implies !self_test_matches(
                            sv,
                            #[trigger] sv.should_not_match[q],
                            facts_list_at(fv.snm, q),
                        ) by {
                            assert(fv.snm[q] == snmf@[q]@);
                        }
                        assert(facts_list_at(fv.snm, u as int) == facts@);
                        lemma_first_snm_pass(sv, fv.snm, u as int, 0);
                        assert(stmt_err(st@, fv) == Some(
                            ErrorKindV::SelfTestFailed {
                                program: sv.program,
                                expected_match: false,
                            },
                        ));
                    }
                    return Err(
                        CompileError {
                            source: identifier.to_owned(),
                            kind: ErrorKind::SelfTestFailed {
                                program: s.program.clone(),
                                expected_match: false,
                            },
                        },
                    );
                }
                snmf.push(facts);
                u = u + 1;
            }
            let f = StmtFacts { sm: smf, snm: snmf };
            proof {
                lemma_first_sm_fail(sv, f@.sm, sv.should_match.len() as int, 0);
                lemma_first_snm_pass(sv, f@.snm, sv.should_not_match.len() as int, 0);
            }
            Ok((Stmt::Define(s), f))
        },
        Stmt::ForbidSubstrings(ss) => Ok(
            (Stmt::ForbidSubstrings(ss), StmtFacts { sm: Vec::new(), snm: Vec::new() }),
        ),
        Stmt::ForbidProgramRegex(rr) => {
            let valid = regex_match_text(rr.pattern.as_str(), "");
            if valid.is_none() {
                proof {
                    assert(stmt_err(st@, empty_stmt_facts()) == Some(
                        ErrorKindV::InvalidRegex { pattern: rr.pattern@ },
                    ));
                }
                Err(
                    CompileError {
                        source: identifier.to_owned(),
                        kind: ErrorKind::InvalidRegex { pattern: rr.pattern },
                    },
                )
            } else {
                Ok((Stmt::ForbidProgramRegex(rr), StmtFacts { sm: Vec::new(), snm: Vec::new() }))
            }
        },
    }
}

/// An empty policy: nothing registered, nothing forbidden.
pub open spec fn empty_policy() -> PolicyV {
    PolicyV {
        programs: Seq::empty(),
        forbidden_program_regexes: Seq::empty(),
        forbidden_substrings: Seq::empty(),
    }
}

/// Accumulates parsed policy sources; [`PolicyParser::build`] freezes the
/// result into an immutable [`Policy`].
pub struct PolicyParser {
    pub programs: Vec<ProgramSpec>,
    pub forbidden_program_regexes: Vec<RegexRule>,
    pub forbidden_substrings: Vec<String>,
}

impl View for PolicyParser {
    type V = PolicyV;

    open spec fn view(&self) -> PolicyV {
        PolicyV {
            programs: self.programs@.map_values(|s: ProgramSpec| s@),
            forbidden_program_regexes: self.forbidden_program_regexes@.map_values(
                |r: RegexRule| r@,
            ),
            forbidden_substrings: self.forbidden_substrings.deep_view(),
        }
    }
}

impl PolicyParser {
    /// A parser with nothing accumulated.
    pub fn new() -> (r: PolicyParser)
        ensures
            r@ == empty_policy(),
    {
        let r = PolicyParser {
            programs: Vec::new(),
            forbidden_program_regexes: Vec::new(),
            forbidden_substrings: Vec::new(),
        };
        proof {
            assert(r@.programs =~= empty_policy().programs);
            assert(r@.forbidden_program_regexes =~= empty_policy().forbidden_program_regexes);
            assert(r@.forbidden_substrings =~= empty_policy().forbidden_substrings);
        }
        r
    }

    /// Parses one policy source, identified by `identifier` for error
    /// reports, and folds its statements into the accumulated policy. On
    /// any error nothing is folded in, and the error names the source. The
    /// self-tests consult the filesystem, so the outcome is stated for the
    /// facts observed during this call.
    #[verifier::loop_isolation(false)]
    #[verifier::rlimit(100)]
    pub fn parse(&mut self, identifier: &str, content: &str) -> (r: Result<(), CompileError>)
        ensures
            exists|fs: Seq<StmtFactsV>|
                #![trigger fs.len()]
                match parse_model(content@) {
                    Ok(stmts) => match apply_stmts(old(self)@, stmts, fs, 0) {
                        Ok(p) => stmt_facts_wf(stmts, fs) && r is Ok && final(self)@ == p,
                        Err(e) => (r matches Err(ce) && ce@.kind == e && ce@.source == identifier@)
                            && final(self)@ == old(self)@,
                    },
                    Err(e) => (r matches Err(ce) && ce@.kind == e && ce@.source == identifier@)
                        && final(self)@ == old(self)@,
                },
    {
        let ghost oldv = self@;
        let stmts = match parse_source(content) {
            Ok(ss) => ss,
            Err(e) => {
                proof {
                    assert(Seq::<StmtFactsV>::empty().len() == 0);
                }
                return Err(CompileError { source: identifier.to_owned(), kind: e });
            },
        };
        let ghost stmtsv = stmts@.map_values(|s: Stmt| s@);
        let total = stmts.len();
        let mut rest = stmts;
        let mut k: usize = 0;
        let mut all_facts: Vec<StmtFacts> = Vec::new();
        let mut dp: Vec<ProgramSpec> = Vec::new();
        let mut dr: Vec<RegexRule> = Vec::new();
        let mut ds: Vec<String> = Vec::new();
        proof {
            assert(rest@.map_values(|s: Stmt| s@) =~= stmtsv.skip(0));
            assert(oldv.programs + dp@.map_values(|s: ProgramSpec| s@) =~= oldv.programs);
            assert(oldv.forbidden_program_regexes + dr@.map_values(|x: RegexRule| x@)
                =~= oldv.forbidden_program_regexes);
            assert(oldv.forbidden_substrings + ds.deep_view() =~= oldv.forbidden_substrings);
        }
        while rest.len() > 0
            invariant
                total == stmtsv.len(),
                k <= total,
                k + rest@.len() == stmtsv.len(),
                rest@.map_values(|s: Stmt| s@) == stmtsv.skip(k as int),
                all_facts@.len() == k,
                forall|q: int|
                    0 <= q < k ==> stmt_facts_wf_one(
                        #[trigger] stmtsv[q],
                        all_facts@.map_values(|f: StmtFacts| f@)[q],
                    ),
                forall|q: int|
                    0 <= q < k ==> stmt_err(
                        #[trigger] stmtsv[q],
                        all_facts@.map_values(|f: StmtFacts| f@)[q],
                    ) is None,
                fold_ok(oldv, stmtsv, 0) == fold_ok(
                    PolicyV {
                        programs: oldv.programs + dp@.map_values(|s: ProgramSpec| s@),
                        forbidden_program_regexes: oldv.forbidden_program_regexes + dr@.map_values(
                            |x: RegexRule| x@,
                        ),
                        forbidden_substrings: oldv.forbidden_substrings + ds.deep_view(),
                    },
                    stmtsv,
                    k as int,
                ),
            decreases rest@.len(),
        {
            let ghost fsv_pre = all_facts@.map_values(|f: StmtFacts| f@);
            let ghost curv_pre = PolicyV {
                programs: oldv.programs + dp@.map_values(|s: ProgramSpec| s@),
                forbidden_program_regexes: oldv.forbidden_program_regexes + dr@.map_values(
                    |x: RegexRule| x@,
                ),
                forbidden_substrings: oldv.forbidden_substrings + ds.deep_view(),
            };
            let ghost rest_pre = rest@;
            let st = rest.remove(0);
            proof {
                assert(stmtsv.skip(k as int)[0] == rest_pre.map_values(|s: Stmt| s@)[0]);
                assert(stmtsv[k as int] == st@);
                assert forall|q: int| 0 <= q < rest@.len() implies rest@.map_values(|s: Stmt| s@)[q]
                    == #[trigger] stmtsv.skip(k as int + 1)[q] by {
                    assert(rest@[q] == rest_pre[q + 1]);
                    assert(rest_pre.map_values(|s: Stmt| s@)[q + 1] == rest_pre[q + 1]@);
                    assert(stmtsv.skip(k as int)[q + 1] == stmtsv[k as int + 1 + q]);
                }
                assert(rest@.map_values(|s: Stmt| s@) =~= stmtsv.skip(k as int + 1));
            }
            let vetted = vet_stmt(st, identifier);
            match vetted {
                Err(ce) => {
                    proof {
                        let f = choose|f: StmtFactsV|
                            stmt_err(stmtsv[k as int], f) == Some(ce@.kind);
                        let fs_wit = fsv_pre + seq![f];
                        assert(fs_wit.len() == fsv_pre.len() + 1);
                        assert(facts_at(fs_wit, k as int) == f);
                        assert forall|q: int| 0 <= q < k implies stmt_err(
                            #[trigger] stmtsv[q],
                            facts_at(fs_wit, q),
                        ) is None by {
                            assert(facts_at(fs_wit, q) == fsv_pre[q]);
                        }
                        lemma_apply_err_at(oldv, stmtsv, fs_wit, 0, k as int);
                        assert(apply_stmts(oldv, stmtsv, fs_wit, 0) == Err::<PolicyV, ErrorKindV>(
                            ce@.kind,
                        ));
                    }
                    return Err(ce);
                },
                Ok(p) => {
                    let (st2, f) = p;
                    let ghost fv = f@;
                    match st2 {
                        Stmt::Define(s) => {
                            dp.push(s);
                        },
                        Stmt::ForbidSubstrings(ss) => {
                            let mut ss2 = ss;
                            let ghost ds_pre = ds.deep_view();
                            let ghost ssv = ss2.deep_view();
                            ds.append(&mut ss2);
                            proof {
                                assert(ds.deep_view() =~= ds_pre + ssv);
                            }
                        },
                        Stmt::ForbidProgramRegex(rr) => {
                            dr.push(rr);
                        },
                    }
                    all_facts.push(f);
                    k = k + 1;
                    proof {
                        let fsv_now = all_facts@.map_values(|x: StmtFacts| x@);
                        assert(fsv_now =~= fsv_pre + seq![fv]);
                        let curv_now = PolicyV {
                            programs: oldv.programs + dp@.map_values(|s2: ProgramSpec| s2@),
                            forbidden_program_regexes: oldv.forbidden_program_regexes
                                + dr@.map_values(|x: RegexRule| x@),
                            forbidden_substrings: oldv.forbidden_substrings + ds.deep_view(),
                        };
                        assert(stmt_apply(curv_pre, stmtsv[k - 1]) == curv_now) by {
                            match stmtsv[k - 1] {
                                StmtV::Define(s2) => {
                                    assert(dp@.map_values(|x: ProgramSpec| x@) =~= dp@.take(
                                        dp@.len() - 1,
                                    ).map_values(|x: ProgramSpec| x@).push(dp@.last()@));
                                    assert(curv_now.programs =~= curv_pre.programs.push(s2));
                                },
                                StmtV::ForbidSubstrings(ss) => {
                                    assert(curv_now.forbidden_substrings
                                        =~= curv_pre.forbidden_substrings + ss);
                                },
                                StmtV::ForbidProgramRegex(rr2) => {
                                    assert(dr@.map_values(|x: RegexRule| x@) =~= dr@.take(
                                        dr@.len() - 1,
                                    ).map_values(|x: RegexRule| x@).push(dr@.last()@));
                                    assert(curv_now.forbidden_program_regexes
                                        =~= curv_pre.forbidden_program_regexes.push(rr2));
                                },
                            }
                        };
                        assert(fold_ok(curv_pre, stmtsv, k - 1) == fold_ok(
                            curv_now,
                            stmtsv,
                            k as int,
                        ));
                        assert forall|q: int| 0 <= q < k implies stmt_err(
                            #[trigger] stmtsv[q],
                            fsv_now[q],
                        ) is None by {
                            if q < k - 1 {
                                assert(fsv_now[q] == fsv_pre[q]);
                            } else {
                                assert(fsv_now[q] == fv);
                            }
                        };
                        assert forall|q: int| 0 <= q < k implies stmt_facts_wf_one(
                            #[trigger] stmtsv[q],
                            fsv_now[q],
                        ) by {
                            if q < k - 1 {
                                assert(fsv_now[q] == fsv_pre[q]);
                            } else {
                                assert(fsv_now[q] == fv);
                            }
                        };
                    }
                },
            }
        }
        proof {
            let fsv = all_facts@.map_values(|x: StmtFacts| x@);
            let curv = PolicyV {
                programs: oldv.programs + dp@.map_values(|s2: ProgramSpec| s2@),
                forbidden_program_regexes: oldv.forbidden_program_regexes + dr@.map_values(
                    |x: RegexRule| x@,
                ),
                forbidden_substrings: oldv.forbidden_substrings + ds.deep_view(),
            };
            assert forall|q: int| 0 <= q < stmtsv.len() implies stmt_err(
                #[trigger] stmtsv[q],
                facts_at(fsv, q),
            ) is None by {
                assert(facts_at(fsv, q) == fsv[q]);
            }
            lemma_apply_no_err(oldv, stmtsv, fsv, 0);
            assert(fold_ok(curv, stmtsv, k as int) == curv);
            assert(apply_stmts(oldv, stmtsv, fsv, 0) == Ok::<PolicyV, ErrorKindV>(curv));
            assert(fsv.len() == stmtsv.len());
            assert(stmt_facts_wf(stmtsv, fsv));
        }
        let ghost dp_v = dp@.map_values(|s2: ProgramSpec| s2@);
        let ghost dr_v = dr@.map_values(|x: RegexRule| x@);
        let ghost ds_v = ds.deep_view();
        let ghost self_pre = self@;
        self.programs.append(&mut dp);
        self.forbidden_program_regexes.append(&mut dr);
        self.forbidden_substrings.append(&mut ds);
        proof {
            assert(self@.programs =~= self_pre.programs + dp_v);
            assert(self@.forbidden_program_regexes =~= self_pre.forbidden_program_regexes + dr_v);
            assert(self@.forbidden_substrings =~= self_pre.forbidden_substrings + ds_v);
        }
        Ok(())
    }

    /// Freezes the accumulated policy into an immutable value.
    pub fn build(self) -> (r: Policy)
        ensures
            r@ == self@,
    {
        Policy {
            programs: self.programs,
            forbidden_program_regexes: self.forbidden_program_regexes,
            forbidden_substrings: self.forbidden_substrings,
        }
    }
}

/// The sources' mathematical model: identifier and text of each.
pub open spec fn source_views(sources: Seq<(String, String)>) -> Seq<(Seq<char>, Seq<char>)> {
    sources.map_values(|p: (String, String)| (p.0@, p.1@))
}

/// The facts for source `k`, or none where the list is short.
pub open spec fn fss_at(fss: Seq<Seq<StmtFactsV>>, k: int) -> Seq<StmtFactsV> {
    if 0 <= k < fss.len() {
        fss[k]
    } else {
        Seq::empty()
    }
}

/// What compiling the sources from `k` on yields: each source's statements
/// fold into the accumulating policy; the first failure aborts the whole
/// load with the failing source's index.
pub open spec fn compile_model(
    b: PolicyV,
    srcs: Seq<(Seq<char>, Seq<char>)>,
    fss: Seq<Seq<StmtFactsV>>,
    k: int,
) -> Result<PolicyV, (int, ErrorKindV)>
    decreases srcs.len() - k,
{
    if k < 0 {
        Err((0, ErrorKindV::Syntax { offset: 0 }))
    } else if k >= srcs.len() {
        Ok(b)
    } else {
        match parse_model(srcs[k].1) {
            Ok(stmts) => match apply_stmts(b, stmts, fss_at(fss, k), 0) {
                Ok(b2) => compile_model(b2, srcs, fss, k + 1),
                Err(e) => Err((k, e)),
            },
            Err(e) => Err((k, e)),
        }
    }
}

/// Compiles policy sources, each given as an identifier for error reports
/// and its text, into one immutable policy. The self-tests consult the
/// filesystem, so the outcome is stated for the facts observed during this
/// call.
#[verifier::loop_isolation(false)]
#[verifier::rlimit(100)]
pub fn compile(sources: &Vec<(String, String)>) -> (r: Result<Policy, CompileError>)
    ensures
        exists|fss: Seq<Seq<StmtFactsV>>|
            #![trigger fss.len()]
            match compile_model(empty_policy(), source_views(sources@), fss, 0) {
                Ok(p) => r matches Ok(pol) && pol@ == p,
                Err(ke) => r matches Err(ce) && ce@.kind == ke.1 && 0 <= ke.0 < sources@.len()
                    && ce@.source == sources@[ke.0].0@,
            },
{
    let ghost srcsv = source_views(sources@);
    let mut parser = PolicyParser::new();
    let mut i: usize = 0;
    let ghost mut fss_acc: Seq<Seq<StmtFactsV>> = Seq::empty();
    proof {
        assert(srcsv.len() == sources@.len());
        assert forall|more: Seq<Seq<StmtFactsV>>|
            #![trigger more.len()]
            compile_model(empty_policy(), srcsv, fss_acc + more, 0) == compile_model(
                parser@,
                srcsv,
                fss_acc + more,
                0,
            ) by {
        }
    }
    while i < sources.len()
        invariant
            i <= sources@.len(),
            fss_acc.len() == i,
            forall|more: Seq<Seq<StmtFactsV>>|
                #![trigger more.len()]
                compile_model(empty_policy(), srcsv, fss_acc + more, 0) == compile_model(
                    parser@,
                    srcsv,
                    fss_acc + more,
                    i as int,
                ),
        decreases sources@.len() - i,
    {
        let ghost fss_pre = fss_acc;
        let ghost parser_pre = parser@;
        proof {
            assert(srcsv[i as int] == (sources@[i as int].0@, sources@[i as int].1@));
        }
        let res = parser.parse(sources[i].0.as_str(), sources[i].1.as_str());
        let ghost fs_i = choose|fs: Seq<StmtFactsV>|
            #![trigger fs.len()]
            match parse_model(srcsv[i as int].1) {
                Ok(stmts) => match apply_stmts(parser_pre, stmts, fs, 0) {
                    Ok(p) => res is Ok && parser@ == p,
                    Err(e) => (res matches Err(ce) && ce@.kind == e && ce@.source
                        == srcsv[i as int].0) && parser@ == parser_pre,
                },
                Err(e) => (res matches Err(ce) && ce@.kind == e && ce@.source == srcsv[i as int].0)
                    && parser@ == parser_pre,
            };
        match res {
            Err(ce) => {
                proof {
                    let fss_wit = fss_pre + seq![fs_i];
                    assert(fss_wit.len() == fss_pre.len() + 1);
                    assert(fss_at(fss_wit, i as int) == fs_i);
                    assert(compile_model(empty_policy(), srcsv, fss_wit, 0) == compile_model(
                        parser_pre,
                        srcsv,
                        fss_wit,
                        i as int,
                    ));
                    assert(compile_model(parser_pre, srcsv, fss_wit, i as int) == Err::<
                        PolicyV,
                        (int, ErrorKindV),
                    >((i as int, ce@.kind)));
                }
                return Err(ce);
            },
            Ok(_) => {
                proof {
                    fss_acc = fss_pre + seq![fs_i];
                    assert forall|more: Seq<Seq<StmtFactsV>>|
                        #![trigger more.len()]
                        compile_model(empty_policy(), srcsv, fss_acc + more, 0) == compile_model(
                            parser@,
                            srcsv,
                            fss_acc + more,
                            i + 1,
                        ) by {
                        let tail = seq![fs_i] + more;
                        assert(tail.len() == more.len() + 1);
                        assert(fss_acc + more =~= fss_pre + tail);
                        assert(compile_model(empty_policy(), srcsv, fss_pre + tail, 0)
                            == compile_model(parser_pre, srcsv, fss_pre + tail, i as int));
                        assert(fss_at(fss_pre + tail, i as int) == fs_i);
                    }
                }
                i = i + 1;
            },
        }
    }
    proof {
        assert(fss_acc + Seq::<Seq<StmtFactsV>>::empty() =~= fss_acc);
        assert(compile_model(empty_policy(), srcsv, fss_acc, 0) == compile_model(
            parser@,
            srcsv,
            fss_acc,
            i as int,
        ));
        assert(compile_model(parser@, srcsv, fss_acc, i as int) == Ok::<
            PolicyV,
            (int, ErrorKindV),
        >(parser@));
    }
    Ok(parser.build())
}

} // verus!
