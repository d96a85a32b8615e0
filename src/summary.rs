//! The summary use case: resolve a record, run every check, and decide what
//! to report.
use vstd::prelude::*;

use crate::checks::{
    all_rightmost_diagnostic, ascii_diagnostic, check_all_is_rightmost, check_has_unknown_term,
    check_is_ascii, check_lookup_count, check_max_txt_length, check_no_redirect_with_all,
    check_redirect_is_rightmost, check_version, directive_after_all, is_all_directive,
    is_redirect, length_diagnostic, lookup_count_diagnostic, lookups, redirect_not_last,
    redirect_rightmost_diagnostic, redirect_with_all_diagnostic, unknown_raws,
    unknown_term_diagnostic, version_diagnostic, MAX_LOOKUP_COUNT, MAX_TXT_LENGTH,
};
use crate::dns::DnsResolver;
use crate::error::{SpfError, SyntaxError};
use crate::model::{Term, Version};
use crate::resolver::{resolve_post, ResolveSpfQuery, ResolveSpfUseCaseImpl, SpfAnswer};
use crate::text::first_piece;

verus! {

/// Receives the outcome of a summary: the summary of a record that passed,
/// or each error in turn.
pub trait Presenter<T, U> {
    fn success(&mut self, data: &T);

    fn error(&mut self, error: &U);
}

pub struct SummarySpfQuery {
    pub domain_name: String,
    /// The record to check; when absent it is read from DNS.
    pub record: Option<String>,
}

/// A record that passed every check.
pub struct SpfSummary {
    pub version: Version,
    pub terms: Vec<Term>,
    pub raw_rdata: String,
}

/// The checks, in the order in which they run.
#[derive(Clone, Copy, Debug, PartialEq, Eq, Structural)]
pub enum CheckKind {
    Length,
    Ascii,
    Version,
    UnknownTerm,
    AllRightmost,
    RedirectWithAll,
    RedirectRightmost,
    LookupCount,
}

/// Whether a check rejects a record with these terms and this text.
pub open spec fn check_fails(k: CheckKind, terms: Seq<Term>, raw: Seq<char>) -> bool {
    match k {
        CheckKind::Length => vstd::utf8::encode_utf8(raw).len() > MAX_TXT_LENGTH,
        CheckKind::Ascii => !vstd::utf8::is_ascii_chars(raw),
        CheckKind::Version => first_piece(raw, ' ') != "v=spf1"@,
        CheckKind::UnknownTerm => unknown_raws(terms).len() != 0,
        CheckKind::AllRightmost => directive_after_all(terms),
        CheckKind::RedirectWithAll => (exists|i: int|
            0 <= i < terms.len() && is_all_directive(#[trigger] terms[i])) && (exists|i: int|
            0 <= i < terms.len() && is_redirect(#[trigger] terms[i])),
        CheckKind::RedirectRightmost => redirect_not_last(terms),
        CheckKind::LookupCount => lookups(terms) > MAX_LOOKUP_COUNT,
    }
}

/// Whether `e` is the diagnostic that check `k` reports.
pub open spec fn diagnostic_fits(
    k: CheckKind,
    e: SyntaxError,
    terms: Seq<Term>,
    raw: Seq<char>,
) -> bool {
    match k {
        CheckKind::Length => length_diagnostic(e, raw),
        CheckKind::Ascii => ascii_diagnostic(e, raw),
        CheckKind::Version => version_diagnostic(e, raw),
        CheckKind::UnknownTerm => unknown_term_diagnostic(e, terms, raw),
        CheckKind::AllRightmost => all_rightmost_diagnostic(e, terms, raw),
        CheckKind::RedirectWithAll => redirect_with_all_diagnostic(e, terms, raw),
        CheckKind::RedirectRightmost => redirect_rightmost_diagnostic(e, terms, raw),
        CheckKind::LookupCount => lookup_count_diagnostic(e, terms, raw),
    }
}

pub open spec fn kind_if(b: bool, k: CheckKind) -> Seq<CheckKind> {
    if b {
        seq![k]
    } else {
        Seq::empty()
    }
}

pub open spec fn kind_if_fails(k: CheckKind, terms: Seq<Term>, raw: Seq<char>) -> Seq<CheckKind> {
    kind_if(check_fails(k, terms, raw), k)
}

/// The checks that reject a record with these terms and this text, in order.
pub open spec fn failing_kinds(terms: Seq<Term>, raw: Seq<char>) -> Seq<CheckKind> {
    kind_if_fails(CheckKind::Length, terms, raw) + kind_if_fails(CheckKind::Ascii, terms, raw)
        + kind_if_fails(CheckKind::Version, terms, raw) + kind_if_fails(
        CheckKind::UnknownTerm,
        terms,
        raw,
    ) + kind_if_fails(CheckKind::AllRightmost, terms, raw) + kind_if_fails(
        CheckKind::RedirectWithAll,
        terms,
        raw,
    ) + kind_if_fails(CheckKind::RedirectRightmost, terms, raw) + kind_if_fails(
        CheckKind::LookupCount,
        terms,
        raw,
    )
}

/// How many of the checks reject a record with these terms and this text.
pub open spec fn failing_checks(terms: Seq<Term>, raw: Seq<char>) -> nat {
    failing_kinds(terms, raw).len()
}

/// `es` holds, one for one, the diagnostics of the checks `kinds`.
pub open spec fn diagnostics_fit(
    es: Seq<SpfError>,
    kinds: Seq<CheckKind>,
    terms: Seq<Term>,
    raw: Seq<char>,
) -> bool {
    &&& es.len() == kinds.len()
    &&& forall|k: int|
        0 <= k < es.len() ==> match #[trigger] es[k] {
            SpfError::SyntaxError(e) => diagnostic_fits(kinds[k], e, terms, raw),
            _ => false,
        }
}

/// Appends the diagnostic that check `k` returned, if it returned one.
fn note<T>(
    errors: &mut Vec<SpfError>,
    result: Result<T, Box<SyntaxError>>,
    Ghost(k): Ghost<CheckKind>,
    Ghost(kinds): Ghost<Seq<CheckKind>>,
    Ghost(terms): Ghost<Seq<Term>>,
    Ghost(raw): Ghost<Seq<char>>,
)
    requires
        diagnostics_fit(old(errors)@, kinds, terms, raw),
        result is Err <==> check_fails(k, terms, raw),
        result matches Err(e) ==> diagnostic_fits(k, *e, terms, raw),
    ensures
        diagnostics_fit(final(errors)@, kinds + kind_if_fails(k, terms, raw), terms, raw),
{
    let ghost before = errors@;
    match result {
        Err(e) => {
            errors.push(SpfError::SyntaxError(*e));
            let ghost ks = kinds + kind_if_fails(k, terms, raw);
            assert forall|j: int| 0 <= j < errors@.len() implies match #[trigger] errors@[j] {
                SpfError::SyntaxError(e) => diagnostic_fits(ks[j], e, terms, raw),
                _ => false,
            } by {
                if j < before.len() {
                    assert(errors@[j] == before[j]);
                }
            }
        },
        Ok(_) => {
            assert(kinds + kind_if_fails(k, terms, raw) =~= kinds);
        },
    }
}

fn note_text_checks(
    errors: &mut Vec<SpfError>,
    terms: &[Term],
    raw_rdata: &str,
    Ghost(kinds): Ghost<Seq<CheckKind>>,
)
    requires
        diagnostics_fit(old(errors)@, kinds, terms@, raw_rdata@),
    ensures
        diagnostics_fit(
            final(errors)@,
            kinds + kind_if_fails(CheckKind::Length, terms@, raw_rdata@) + kind_if_fails(
                CheckKind::Ascii,
                terms@,
                raw_rdata@,
            ) + kind_if_fails(CheckKind::Version, terms@, raw_rdata@),
            terms@,
            raw_rdata@,
        ),
{
    let ghost t = terms@;
    let ghost raw = raw_rdata@;
    let ghost k1 = kinds + kind_if_fails(CheckKind::Length, t, raw);
    let ghost k2 = k1 + kind_if_fails(CheckKind::Ascii, t, raw);
    let r1 = check_max_txt_length(raw_rdata);
    note(errors, r1, Ghost(CheckKind::Length), Ghost(kinds), Ghost(t), Ghost(raw));
    let r2 = check_is_ascii(raw_rdata);
    note(errors, r2, Ghost(CheckKind::Ascii), Ghost(k1), Ghost(t), Ghost(raw));
    let r3 = check_version(raw_rdata);
    note(errors, r3, Ghost(CheckKind::Version), Ghost(k2), Ghost(t), Ghost(raw));
}

fn note_term_checks(
    errors: &mut Vec<SpfError>,
    terms: &[Term],
    raw_rdata: &str,
    Ghost(kinds): Ghost<Seq<CheckKind>>,
)
    requires
        diagnostics_fit(old(errors)@, kinds, terms@, raw_rdata@),
    ensures
        diagnostics_fit(
            final(errors)@,
            kinds + kind_if_fails(CheckKind::UnknownTerm, terms@, raw_rdata@) + kind_if_fails(
                CheckKind::AllRightmost,
                terms@,
                raw_rdata@,
            ),
            terms@,
            raw_rdata@,
        ),
{
    let ghost t = terms@;
    let ghost raw = raw_rdata@;
    let ghost k1 = kinds + kind_if_fails(CheckKind::UnknownTerm, t, raw);
    let r1 = check_has_unknown_term(terms, raw_rdata);
    note(errors, r1, Ghost(CheckKind::UnknownTerm), Ghost(kinds), Ghost(t), Ghost(raw));
    let r2 = check_all_is_rightmost(terms, raw_rdata);
    note(errors, r2, Ghost(CheckKind::AllRightmost), Ghost(k1), Ghost(t), Ghost(raw));
}

fn note_redirect_and_lookup_checks(
    errors: &mut Vec<SpfError>,
    terms: &[Term],
    raw_rdata: &str,
    Ghost(kinds): Ghost<Seq<CheckKind>>,
)
    requires
        diagnostics_fit(old(errors)@, kinds, terms@, raw_rdata@),
    ensures
        diagnostics_fit(
            final(errors)@,
            kinds + kind_if_fails(CheckKind::RedirectWithAll, terms@, raw_rdata@)
                + kind_if_fails(CheckKind::RedirectRightmost, terms@, raw_rdata@)
                + kind_if_fails(CheckKind::LookupCount, terms@, raw_rdata@),
            terms@,
            raw_rdata@,
        ),
{
    let ghost t = terms@;
    let ghost raw = raw_rdata@;
    let ghost k1 = kinds + kind_if_fails(CheckKind::RedirectWithAll, t, raw);
    let ghost k2 = k1 + kind_if_fails(CheckKind::RedirectRightmost, t, raw);
    let r1 = check_no_redirect_with_all(terms, raw_rdata);
    note(errors, r1, Ghost(CheckKind::RedirectWithAll), Ghost(kinds), Ghost(t), Ghost(raw));
    let r2 = check_redirect_is_rightmost(terms, raw_rdata);
    note(errors, r2, Ghost(CheckKind::RedirectRightmost), Ghost(k1), Ghost(t), Ghost(raw));
    let r3 = check_lookup_count(terms, raw_rdata);
    note(errors, r3, Ghost(CheckKind::LookupCount), Ghost(k2), Ghost(t), Ghost(raw));
}

/// Runs every check on a resolved record and collects the diagnostic of
/// each check that rejects it, in the order: length, ASCII, version, unknown
/// terms, `all` rightmost, `redirect` with `all`, `redirect` rightmost,
/// lookup count.
pub fn run_checks(terms: &[Term], raw_rdata: &str) -> (r: Vec<SpfError>)
    ensures
        diagnostics_fit(r@, failing_kinds(terms@, raw_rdata@), terms@, raw_rdata@),
{
    let mut errors: Vec<SpfError> = Vec::new();
    let ghost t = terms@;
    let ghost raw = raw_rdata@;
    let ghost k0 = Seq::<CheckKind>::empty();
    let ghost k3 = k0 + kind_if_fails(CheckKind::Length, t, raw) + kind_if_fails(
        CheckKind::Ascii,
        t,
        raw,
    ) + kind_if_fails(CheckKind::Version, t, raw);
    let ghost k5 = k3 + kind_if_fails(CheckKind::UnknownTerm, t, raw) + kind_if_fails(
        CheckKind::AllRightmost,
        t,
        raw,
    );
    note_text_checks(&mut errors, terms, raw_rdata, Ghost(k0));
    note_term_checks(&mut errors, terms, raw_rdata, Ghost(k3));
    note_redirect_and_lookup_checks(&mut errors, terms, raw_rdata, Ghost(k5));
    assert(k5 + kind_if_fails(CheckKind::RedirectWithAll, t, raw) + kind_if_fails(
        CheckKind::RedirectRightmost,
        t,
        raw,
    ) + kind_if_fails(CheckKind::LookupCount, t, raw) =~= failing_kinds(t, raw));
    errors
}

/// What is reported for a resolved record: its summary when every check
/// passes, else the diagnostic of each failing check.
pub open spec fn summary_fits(answer: SpfAnswer, r: Result<SpfSummary, Vec<SpfError>>) -> bool {
    let ks = failing_kinds(answer.terms@, answer.raw_rdata@);
    match r {
        Ok(s) => ks.len() == 0 && s.version == answer.version && s.terms == answer.terms
            && s.raw_rdata == answer.raw_rdata,
        Err(es) => ks.len() > 0 && diagnostics_fit(es@, ks, answer.terms@, answer.raw_rdata@),
    }
}

/// What is reported for the resolver's result: its error alone, or what
/// `summary_fits` says of its answer.
pub open spec fn outcome_fits(
    resolved: Result<SpfAnswer, SpfError>,
    r: Result<SpfSummary, Vec<SpfError>>,
) -> bool {
    match resolved {
        Err(e) => r matches Err(es) && es@ == seq![e],
        Ok(a) => summary_fits(a, r),
    }
}

/// Checks a resolved record.
pub fn summary_of(answer: SpfAnswer) -> (r: Result<SpfSummary, Vec<SpfError>>)
    ensures
        r is Ok <==> failing_checks(answer.terms@, answer.raw_rdata@) == 0,
        summary_fits(answer, r),
{
    let errors = run_checks(answer.terms.as_slice(), answer.raw_rdata.as_str());
    if errors.len() == 0 {
        Ok(SpfSummary { version: answer.version, terms: answer.terms, raw_rdata: answer.raw_rdata })
    } else {
        Err(errors)
    }
}

/// Decides what to report for the resolver's result.
pub fn summary_of_resolved(resolved: Result<SpfAnswer, SpfError>) -> (r: Result<
    SpfSummary,
    Vec<SpfError>,
>)
    ensures
        outcome_fits(resolved, r),
{
    match resolved {
        Err(e) => {
            let mut errors: Vec<SpfError> = Vec::new();
            errors.push(e);
            assert(errors@ =~= seq![e]);
            Err(errors)
        },
        Ok(answer) => summary_of(answer),
    }
}

pub open spec fn resolve_query(q: SummarySpfQuery) -> ResolveSpfQuery {
    ResolveSpfQuery { domain_name: q.domain_name, record: q.record }
}

pub struct SummarySpfUseCaseImpl<D: DnsResolver> {
    pub spf_resolver: ResolveSpfUseCaseImpl<D>,
}

impl<D: DnsResolver> SummarySpfUseCaseImpl<D> {
    pub fn new(dns_resolver: D) -> (r: Self)
        ensures
            r.spf_resolver.dns_resolver == dns_resolver,
    {
        SummarySpfUseCaseImpl { spf_resolver: ResolveSpfUseCaseImpl::new(dns_resolver) }
    }

    /// Resolves the record and checks it. The result is what a presenter is
    /// handed: the summary, or each error in turn.
    pub fn summarize(&mut self, query: &SummarySpfQuery) -> (r: Result<SpfSummary, Vec<SpfError>>)
        ensures
            exists|resolved: Result<SpfAnswer, SpfError>|
                resolve_post(resolve_query(*query), resolved) && outcome_fits(resolved, r),
    {
        let rq = ResolveSpfQuery {
            domain_name: query.domain_name.clone(),
            record: query.record.clone(),
        };
        let resolved = self.spf_resolver.resolve(&rq);
        let ghost g = resolved;
        let r = summary_of_resolved(resolved);
        assert(resolve_post(resolve_query(*query), g) && outcome_fits(g, r));
        r
    }
}

} // verus!
