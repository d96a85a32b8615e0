use det::dns::{
    ARecord, ARecordQuery, DnsError, DnsResolver, InMemoryDnsResolver, MxRecord, MxRecordQuery,
    TxtRecord, TxtRecordQuery,
};
use det::error::{Severity, SpfError};
use det::model::{Mechanism, Modifier, QualifierType, Term};
use det::resolver::{ResolveSpfQuery, ResolveSpfUseCaseImpl};
use det::summary::{
    run_checks, summary_of, summary_of_resolved, Presenter, SpfSummary, SummarySpfQuery,
    SummarySpfUseCaseImpl,
};

struct TableDns {
    txt: Vec<(String, String)>,
}

impl DnsResolver for TableDns {
    fn query_a(&mut self, _query: &ARecordQuery) -> Result<ARecord, DnsError> {
        Ok(ARecord { ip_addresses: vec![] })
    }

    fn query_txt(&mut self, query: &TxtRecordQuery) -> Result<TxtRecord, DnsError> {
        let records = self
            .txt
            .iter()
            .filter(|(name, _)| *name == query.domain_name)
            .map(|(_, r)| r.clone())
            .collect();
        Ok(TxtRecord { records })
    }

    fn query_mx(&mut self, _query: &MxRecordQuery) -> Result<MxRecord, DnsError> {
        Ok(MxRecord { exchanges: vec![] })
    }
}

fn present<D: DnsResolver>(
    use_case: &mut SummarySpfUseCaseImpl<D>,
    query: &SummarySpfQuery,
    presenter: &mut Collect,
) {
    match use_case.summarize(query) {
        Ok(summary) => presenter.success(&summary),
        Err(errors) => {
            for e in &errors {
                presenter.error(e);
            }
        }
    }
}

#[derive(Default)]
struct Collect {
    successes: Vec<String>,
    errors: Vec<String>,
}

impl Presenter<SpfSummary, SpfError> for Collect {
    fn success(&mut self, data: &SpfSummary) {
        self.successes.push(data.raw_rdata.clone());
    }

    fn error(&mut self, error: &SpfError) {
        let text = match error {
            SpfError::NoSpfRecordFound(m) => m.clone(),
            SpfError::SyntaxError(e) => e.message.clone(),
            SpfError::CheckFailed(e) => e.summary.clone(),
            SpfError::DnsQueryFailed(m) => m.clone(),
            SpfError::NestingTooDeep(m) => m.clone(),
        };
        self.errors.push(text);
    }
}

fn messages(errors: &[SpfError]) -> Vec<(String, Option<Severity>)> {
    errors
        .iter()
        .map(|e| match e {
            SpfError::SyntaxError(s) => (s.message.clone(), s.severity),
            _ => panic!("expected a diagnostic"),
        })
        .collect()
}

fn resolve(record: &str) -> det::resolver::SpfAnswer {
    let dns = TableDns { txt: vec![("_spf.example.com".to_owned(), "v=spf1 -all".to_owned())] };
    let mut r = ResolveSpfUseCaseImpl::new(dns);
    r.resolve(&ResolveSpfQuery {
        domain_name: "example.com".to_owned(),
        record: Some(record.to_owned()),
    })
    .ok()
    .unwrap()
}

#[test]
fn clean_record_passes_every_check() {
    let answer = resolve("v=spf1 -all");
    assert!(run_checks(&answer.terms, &answer.raw_rdata).is_empty());

    let mut use_case = SummarySpfUseCaseImpl::new(TableDns { txt: vec![] });
    let mut presenter = Collect::default();
    present(
        &mut use_case,
        &SummarySpfQuery {
            domain_name: "example.com".to_owned(),
            record: Some("v=spf1 -all".to_owned()),
        },
        &mut presenter,
    );
    assert_eq!(presenter.successes, vec!["v=spf1 -all".to_owned()]);
    assert!(presenter.errors.is_empty());
}

#[test]
fn include_costs_one_lookup() {
    let answer = resolve("v=spf1 include:_spf.example.com");
    assert_eq!(det::checks::check_lookup_count(&answer.terms, "").ok(), Some(1));
}

#[test]
fn a_and_mx_cost_two_lookups() {
    let answer = resolve("v=spf1 a mx ip4:192.0.2.0/24 -all");
    assert_eq!(det::checks::check_lookup_count(&answer.terms, "").ok(), Some(2));
}

#[test]
fn all_before_a_gives_one_warning() {
    let answer = resolve("v=spf1 all a -all");
    let errors = run_checks(&answer.terms, &answer.raw_rdata);
    assert_eq!(
        messages(&errors),
        vec![("Mechanisms after 'all' found".to_owned(), Some(Severity::Warning))]
    );
}

#[test]
fn redirect_before_all_gives_two_warnings() {
    let answer = resolve("v=spf1 redirect=_spf.example.com all");
    let errors = run_checks(&answer.terms, &answer.raw_rdata);
    assert_eq!(
        messages(&errors),
        vec![
            (
                "SPF record contains 'all' directive and 'redirect' modifier".to_owned(),
                Some(Severity::Warning)
            ),
            ("Redirect modifier not rightmost".to_owned(), Some(Severity::Warning)),
        ]
    );
}

#[test]
fn missing_version_is_one_of_the_diagnostics() {
    let answer = resolve("spf1 -all");
    let errors = run_checks(&answer.terms, &answer.raw_rdata);
    assert_eq!(
        messages(&errors),
        vec![("Version must be defined".to_owned(), None)]
    );
}

#[test]
fn unknown_term_gives_a_warning() {
    let answer = resolve("v=spf1 foo -all");
    assert!(matches!(&answer.terms[0], Term::Unknown(u) if u.raw_rdata == "foo"));
    let errors = run_checks(&answer.terms, &answer.raw_rdata);
    match &errors[..] {
        [SpfError::SyntaxError(e)] => {
            assert_eq!(e.severity, Some(Severity::Warning));
            let labels = e.src_labels.as_ref().unwrap();
            assert_eq!((labels[0].offset, labels[0].len), (7, 3));
        }
        _ => panic!("expected one warning"),
    }
}

#[test]
fn missing_record_goes_to_the_presenter() {
    let mut use_case = SummarySpfUseCaseImpl::new(TableDns { txt: vec![] });
    let mut presenter = Collect::default();
    present(
        &mut use_case,
        &SummarySpfQuery { domain_name: "example.com".to_owned(), record: None },
        &mut presenter,
    );
    assert!(presenter.successes.is_empty());
    assert_eq!(
        presenter.errors,
        vec!["No SPF record found for 'example.com'".to_owned()]
    );
}

#[test]
fn every_diagnostic_goes_to_the_presenter() {
    let mut use_case = SummarySpfUseCaseImpl::new(TableDns { txt: vec![] });
    let mut presenter = Collect::default();
    present(
        &mut use_case,
        &SummarySpfQuery {
            domain_name: "example.com".to_owned(),
            record: Some("v=spf2 all foo a".to_owned()),
        },
        &mut presenter,
    );
    assert_eq!(
        presenter.errors,
        vec![
            "Invalid SPF version".to_owned(),
            "SPF record contains one or more unknown terms".to_owned(),
            "Mechanisms after 'all' found".to_owned(),
        ]
    );
}

#[test]
fn in_memory_resolver_answers_every_name() {
    let dns = InMemoryDnsResolver::new("v=spf1 mx -all".to_owned());
    let mut use_case = SummarySpfUseCaseImpl::new(dns);
    let summary = use_case
        .summarize(&SummarySpfQuery { domain_name: "example.org".to_owned(), record: None })
        .ok()
        .unwrap();
    assert_eq!(summary.raw_rdata, "v=spf1 mx -all");
    assert_eq!(summary.terms.len(), 2);
    assert!(matches!(&summary.terms[0], Term::Directive(d)
        if matches!(&d.mechanism, Mechanism::Mx(m) if m.hosts.is_empty())));
}

fn term_text(t: &Term) -> String {
    match t {
        Term::Directive(d) => {
            let q = d.qualifier.map(|q| q.as_str()).unwrap_or("");
            let raw = match &d.mechanism {
                Mechanism::All(m) => &m.raw_value,
                Mechanism::A(m) => &m.raw_value,
                Mechanism::Include(m) => &m.raw_value,
                Mechanism::Mx(m) => &m.raw_value,
                Mechanism::Ptr(m) => &m.raw_value,
                Mechanism::Ip4(m) => &m.raw_value,
                Mechanism::Ip6(m) => &m.raw_value,
                Mechanism::Exists(m) => &m.raw_value,
            };
            format!("{}{}", q, raw)
        }
        Term::Modifier(Modifier::Redirect(r)) => r.raw_value.clone(),
        Term::Modifier(Modifier::Exp(e)) => e.raw_value.clone(),
        Term::Unknown(u) => u.raw_rdata.clone(),
    }
}

const SAMPLE: &str = "v=spf1 +a:x.example.com/24 ~mx ip4:192.0.2.0/24 ip6:::1 foo \
include:_spf.example.com include:none.example.com  ?all redirect=_spf.example.com";

#[test]
fn terms_join_back_into_the_record() {
    let answer = resolve(SAMPLE);
    assert_eq!(answer.version.version, SAMPLE.split(' ').next().unwrap());
    let mut parts = vec![answer.version.version.clone()];
    parts.extend(answer.terms.iter().map(term_text));
    assert_eq!(parts.join(" "), answer.raw_rdata);
}

#[test]
fn resolving_the_raw_record_again_keeps_the_shape() {
    let first = resolve(SAMPLE);
    let second = resolve(&first.raw_rdata);
    assert_eq!(second.raw_rdata, first.raw_rdata);
    assert_eq!(second.version.version, first.version.version);
    let shape = |a: &det::resolver::SpfAnswer| -> Vec<(String, std::mem::Discriminant<Term>)> {
        a.terms.iter().map(|t| (term_text(t), std::mem::discriminant(t))).collect()
    };
    assert_eq!(shape(&second), shape(&first));
    assert!(matches!(&first.terms[8], Term::Directive(d) if d.qualifier == Some(QualifierType::Neutral)));
}

#[test]
fn record_without_version_gives_exactly_one_diagnostic() {
    let mut use_case = SummarySpfUseCaseImpl::new(TableDns { txt: vec![] });
    let errors = use_case
        .summarize(&SummarySpfQuery {
            domain_name: "example.com".to_owned(),
            record: Some("spf1 -all".to_owned()),
        })
        .err()
        .unwrap();
    assert_eq!(messages(&errors), vec![("Version must be defined".to_owned(), None)]);
}

#[test]
fn resolver_error_is_handed_on_alone() {
    let errors = summary_of_resolved(Err(SpfError::DnsQueryFailed("timed out".to_owned())))
        .err()
        .unwrap();
    assert_eq!(errors.len(), 1);
    assert!(matches!(&errors[0], SpfError::DnsQueryFailed(m) if m == "timed out"));
}

#[test]
fn passing_answer_becomes_the_summary() {
    let summary = summary_of(resolve("v=spf1 ip4:192.0.2.1 -all")).ok().unwrap();
    assert_eq!(summary.version.version, "v=spf1");
    assert_eq!(summary.raw_rdata, "v=spf1 ip4:192.0.2.1 -all");
    assert_eq!(summary.terms.len(), 2);
    let errors = summary_of(resolve("v=spf1 ~all a")).err().unwrap();
    assert_eq!(
        messages(&errors),
        vec![("Mechanisms after 'all' found".to_owned(), Some(Severity::Warning))]
    );
}
