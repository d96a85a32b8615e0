use det::dns::{
    ARecord, ARecordQuery, DnsError, DnsResolver, MxRecord, MxRecordQuery, TxtRecord,
    TxtRecordQuery,
};
use det::error::SpfError;
use det::model::{IpAddress, Mechanism, MechanismType, Modifier, QualifierType, Term};
use std::str::FromStr;
use det::resolver::{
    classify, select_spf_record, ResolveSpfQuery, ResolveSpfUseCase, ResolveSpfUseCaseImpl,
    TermKind,
};

/// A DNS resolver that answers from fixed tables and counts the queries.
struct StubDns {
    txt: Vec<(String, Vec<String>)>,
    a: Vec<IpAddress>,
    mx: Vec<String>,
    fail_a: bool,
    txt_calls: usize,
    a_calls: usize,
    mx_calls: usize,
    asked: Vec<String>,
}

impl StubDns {
    fn new() -> Self {
        StubDns {
            txt: vec![],
            a: vec![],
            mx: vec![],
            fail_a: false,
            txt_calls: 0,
            a_calls: 0,
            mx_calls: 0,
            asked: vec![],
        }
    }

    fn with_txt(mut self, name: &str, records: &[&str]) -> Self {
        self.txt
            .push((name.to_owned(), records.iter().map(|r| r.to_string()).collect()));
        self
    }
}

impl DnsResolver for StubDns {
    fn query_a(&mut self, query: &ARecordQuery) -> Result<ARecord, DnsError> {
        self.a_calls += 1;
        self.asked.push(query.domain_name.clone());
        if self.fail_a {
            return Err(DnsError { message: "timed out".to_owned() });
        }
        Ok(ARecord { ip_addresses: self.a.clone() })
    }

    fn query_txt(&mut self, query: &TxtRecordQuery) -> Result<TxtRecord, DnsError> {
        self.txt_calls += 1;
        self.asked.push(query.domain_name.clone());
        let records = self
            .txt
            .iter()
            .find(|(name, _)| *name == query.domain_name)
            .map(|(_, r)| r.clone())
            .unwrap_or_default();
        Ok(TxtRecord { records })
    }

    fn query_mx(&mut self, query: &MxRecordQuery) -> Result<MxRecord, DnsError> {
        self.mx_calls += 1;
        self.asked.push(query.domain_name.clone());
        Ok(MxRecord { exchanges: self.mx.clone() })
    }
}

fn query(domain: &str, record: Option<&str>) -> ResolveSpfQuery {
    ResolveSpfQuery {
        domain_name: domain.to_owned(),
        record: record.map(|r| r.to_owned()),
    }
}

fn is_mechanism(term: &Term, pick: fn(&Mechanism) -> bool) -> bool {
    match term {
        Term::Directive(d) => pick(&d.mechanism),
        _ => false,
    }
}

#[test]
fn it_should_return_no_spf_record_found() {
    let dns = StubDns::new().with_txt("example.com", &[]);
    let mut spf_resolver = ResolveSpfUseCaseImpl::new(dns);

    let spf_summary = spf_resolver.resolve(&query("example.com", None));

    assert_eq!(spf_resolver.dns_resolver.txt_calls, 1);
    assert!(spf_summary.is_err(), "No error was not returned but expected");
    match spf_summary.err().unwrap() {
        SpfError::NoSpfRecordFound(_) => {}
        _ => panic!("Expected NoSpfRecordFound error but was not returned"),
    }
}

#[test]
fn it_should_return_a_spf_record() {
    let dns = StubDns::new().with_txt("example.com", &["v=spf1"]);
    let mut spf_resolver = ResolveSpfUseCaseImpl::new(dns);

    let spf_summary = spf_resolver.resolve(&query("example.com", None));

    assert_eq!(spf_resolver.dns_resolver.txt_calls, 1);
    assert!(spf_summary.is_ok(), "SPF Answer was expected but not returned");
}

#[test]
fn it_should_use_the_record_from_query() {
    let dns = StubDns::new();
    let mut spf_resolver = ResolveSpfUseCaseImpl::new(dns);

    let spf_summary = spf_resolver.resolve(&query("example.com", Some("v=spf1 -all")));

    assert_eq!(spf_resolver.dns_resolver.txt_calls, 0);
    assert!(spf_summary.is_ok(), "SPF Answer was expected but not returned");
}

#[test]
fn it_should_be_a_valid_spf_version() {
    let dns = StubDns::new().with_txt("example.com", &["v=spf1 -all"]);
    let mut spf_resolver = ResolveSpfUseCaseImpl::new(dns);

    let spf_summary = spf_resolver.resolve(&query("example.com", None));

    assert_eq!(spf_resolver.dns_resolver.txt_calls, 1);
    let actual_version_str = spf_summary.ok().unwrap().version.version;
    let expected_version_str = "v=spf1";

    assert_eq!(actual_version_str, expected_version_str);
}

#[test]
fn it_should_be_a_valid_include_mechanism() {
    let dns = StubDns::new()
        .with_txt("example.com", &["v=spf1 include:_spf.example.com"])
        .with_txt("_spf.example.com", &["v=spf1 -all"]);
    let mut spf_resolver = ResolveSpfUseCaseImpl::new(dns);

    let spf_summary = spf_resolver.resolve(&query("example.com", None));

    assert_eq!(spf_resolver.dns_resolver.txt_calls, 2);
    let actual_spf_answer = spf_summary.ok().unwrap();

    assert_eq!(actual_spf_answer.terms.len(), 1);
    assert!(is_mechanism(&actual_spf_answer.terms[0], |m| matches!(
        m,
        Mechanism::Include(_)
    )));
}

#[test]
fn it_should_be_a_valid_a_mechanism() {
    let mut dns = StubDns::new().with_txt("example.com", &["v=spf1 a"]);
    dns.a = vec![IpAddress::V4(0x7f00_0001)];
    let mut spf_resolver = ResolveSpfUseCaseImpl::new(dns);

    let spf_summary = spf_resolver.resolve(&query("example.com", None));

    assert_eq!(spf_resolver.dns_resolver.a_calls, 1);
    let actual_spf_answer = spf_summary.ok().unwrap();

    assert_eq!(actual_spf_answer.terms.len(), 1);
    assert!(is_mechanism(&actual_spf_answer.terms[0], |m| matches!(m, Mechanism::A(_))));
}

#[test]
fn it_should_be_a_valid_mx_mechanism() {
    let mut dns = StubDns::new().with_txt("example.com", &["v=spf1 mx"]);
    dns.mx = vec!["example.com".to_owned()];
    let mut spf_resolver = ResolveSpfUseCaseImpl::new(dns);

    let spf_summary = spf_resolver.resolve(&query("example.com", None));

    assert_eq!(spf_resolver.dns_resolver.mx_calls, 1);
    let actual_spf_answer = spf_summary.ok().unwrap();

    assert_eq!(actual_spf_answer.terms.len(), 1);
    assert!(is_mechanism(&actual_spf_answer.terms[0], |m| matches!(m, Mechanism::Mx(_))));
}

#[test]
fn it_should_be_a_valid_ip4_mechanism() {
    let dns = StubDns::new().with_txt("example.com", &["v=spf1 ip4:127.0.0.1"]);
    let mut spf_resolver = ResolveSpfUseCaseImpl::new(dns);

    let spf_summary = spf_resolver.resolve(&query("example.com", None));

    let actual_spf_answer = spf_summary.ok().unwrap();

    assert_eq!(actual_spf_answer.terms.len(), 1);
    assert!(is_mechanism(&actual_spf_answer.terms[0], |m| matches!(m, Mechanism::Ip4(_))));
}

#[test]
fn it_should_be_a_valid_ip6_mechanism() {
    let dns = StubDns::new().with_txt("example.com", &["v=spf1 ip6:::1"]);
    let mut spf_resolver = ResolveSpfUseCaseImpl::new(dns);

    let spf_summary = spf_resolver.resolve(&query("example.com", None));

    let actual_spf_answer = spf_summary.ok().unwrap();

    assert_eq!(actual_spf_answer.terms.len(), 1);
    assert!(is_mechanism(&actual_spf_answer.terms[0], |m| matches!(m, Mechanism::Ip6(_))));
}

#[test]
fn it_should_be_a_valid_all_mechanism() {
    let dns = StubDns::new().with_txt("example.com", &["v=spf1 all"]);
    let mut spf_resolver = ResolveSpfUseCaseImpl::new(dns);

    let spf_summary = spf_resolver.resolve(&query("example.com", None));

    let actual_spf_answer = spf_summary.ok().unwrap();

    assert_eq!(actual_spf_answer.terms.len(), 1);
    assert!(is_mechanism(&actual_spf_answer.terms[0], |m| matches!(m, Mechanism::All(_))));
}

#[test]
fn it_should_be_a_valid_redirect_mechanism() {
    let dns = StubDns::new()
        .with_txt("example.com", &["v=spf1 redirect=_spf.example.com"])
        .with_txt("_spf.example.com", &["v=spf1 -all"]);
    let mut spf_resolver = ResolveSpfUseCaseImpl::new(dns);

    let spf_summary = spf_resolver.resolve(&query("example.com", None));

    assert_eq!(spf_resolver.dns_resolver.txt_calls, 2);
    let actual_spf_answer = spf_summary.ok().unwrap();

    assert_eq!(actual_spf_answer.terms.len(), 1);
    assert!(matches!(
        &actual_spf_answer.terms[0],
        Term::Modifier(Modifier::Redirect(_))
    ));
}

#[test]
fn record_with_fail_all_gives_one_directive() {
    let mut r = ResolveSpfUseCaseImpl::new(StubDns::new());
    let answer = r.resolve(&query("example.com", Some("v=spf1 -all"))).ok().unwrap();
    assert_eq!(answer.raw_rdata, "v=spf1 -all");
    assert_eq!(answer.terms.len(), 1);
    match &answer.terms[0] {
        Term::Directive(d) => {
            assert_eq!(d.qualifier, Some(QualifierType::Fail));
            match &d.mechanism {
                Mechanism::All(a) => assert_eq!(a.raw_value, "all"),
                _ => panic!("expected all"),
            }
        }
        _ => panic!("expected a directive"),
    }
}

#[test]
fn include_holds_the_nested_record() {
    let dns = StubDns::new().with_txt("_spf.example.com", &["v=spf1 -all"]);
    let mut r = ResolveSpfUseCaseImpl::new(dns);
    let answer = r
        .resolve(&query("example.com", Some("v=spf1 include:_spf.example.com")))
        .ok()
        .unwrap();
    assert_eq!(r.dns_resolver.asked, vec!["_spf.example.com".to_owned()]);
    assert_eq!(answer.terms.len(), 1);
    match &answer.terms[0] {
        Term::Directive(d) => match &d.mechanism {
            Mechanism::Include(i) => {
                assert_eq!(i.raw_value, "include:_spf.example.com");
                assert_eq!(i.domain_spec, "_spf.example.com");
                assert_eq!(i.raw_rdata, "v=spf1 -all");
                assert_eq!(i.version.version, "v=spf1");
                assert_eq!(i.terms.len(), 1);
                assert!(matches!(&i.terms[0], Term::Directive(n)
                    if n.qualifier == Some(QualifierType::Fail)
                        && matches!(n.mechanism, Mechanism::All(_))));
            }
            _ => panic!("expected include"),
        },
        _ => panic!("expected a directive"),
    }
}

#[test]
fn a_mx_ip4_all_keep_their_order() {
    let mut dns = StubDns::new();
    dns.a = vec![IpAddress::V4(0xc000_0201)];
    dns.mx = vec!["mail.example.com".to_owned()];
    let mut r = ResolveSpfUseCaseImpl::new(dns);
    let answer = r
        .resolve(&query("example.com", Some("v=spf1 a mx ip4:192.0.2.0/24 -all")))
        .ok()
        .unwrap();
    assert_eq!(answer.terms.len(), 4);
    match &answer.terms[0] {
        Term::Directive(d) => match &d.mechanism {
            Mechanism::A(a) => {
                assert_eq!(a.ip_addresses, vec![IpAddress::V4(0xc000_0201)]);
                assert_eq!(a.subnet_mask, None);
            }
            _ => panic!("expected a"),
        },
        _ => panic!("expected a directive"),
    }
    match &answer.terms[1] {
        Term::Directive(d) => match &d.mechanism {
            Mechanism::Mx(m) => assert_eq!(m.hosts, vec!["mail.example.com".to_owned()]),
            _ => panic!("expected mx"),
        },
        _ => panic!("expected a directive"),
    }
    match &answer.terms[2] {
        Term::Directive(d) => match &d.mechanism {
            Mechanism::Ip4(m) => {
                assert_eq!(m.ip_address, "192.0.2.0");
                assert_eq!(m.subnet_mask, Some(24));
                assert_eq!(m.raw_value, "ip4:192.0.2.0/24");
            }
            _ => panic!("expected ip4"),
        },
        _ => panic!("expected a directive"),
    }
    assert!(is_mechanism(&answer.terms[3], |m| matches!(m, Mechanism::All(_))));
    assert_eq!(
        r.dns_resolver.asked,
        vec!["example.com".to_owned(), "example.com".to_owned()]
    );
}

#[test]
fn a_with_target_and_prefix_queries_the_target() {
    let mut r = ResolveSpfUseCaseImpl::new(StubDns::new());
    let answer = r
        .resolve(&query("example.com", Some("v=spf1 ?a:mail.example.org/24")))
        .ok()
        .unwrap();
    assert_eq!(r.dns_resolver.asked, vec!["mail.example.org".to_owned()]);
    match &answer.terms[0] {
        Term::Directive(d) => {
            assert_eq!(d.qualifier, Some(QualifierType::Neutral));
            match &d.mechanism {
                Mechanism::A(a) => {
                    assert_eq!(a.raw_value, "a:mail.example.org/24");
                    assert_eq!(a.subnet_mask, Some(24));
                }
                _ => panic!("expected a"),
            }
        }
        _ => panic!("expected a directive"),
    }
}

#[test]
fn prefix_out_of_range_is_dropped() {
    let mut r = ResolveSpfUseCaseImpl::new(StubDns::new());
    let answer = r
        .resolve(&query(
            "example.com",
            Some("v=spf1 ip4:10.0.0.0/33 ip6:2001:db8::/128 ip6:::1/129 ip4:10.0.0.1/x"),
        ))
        .ok()
        .unwrap();
    let masks: Vec<Option<u8>> = answer
        .terms
        .iter()
        .map(|t| match t {
            Term::Directive(d) => match &d.mechanism {
                Mechanism::Ip4(m) => m.subnet_mask,
                Mechanism::Ip6(m) => m.subnet_mask,
                _ => panic!("expected an address"),
            },
            _ => panic!("expected a directive"),
        })
        .collect();
    assert_eq!(masks, vec![None, Some(128), None, None]);
    match &answer.terms[1] {
        Term::Directive(d) => match &d.mechanism {
            Mechanism::Ip6(m) => assert_eq!(m.ip_address, "2001:db8::"),
            _ => panic!("expected ip6"),
        },
        _ => panic!("expected a directive"),
    }
}

#[test]
fn unknown_token_is_kept_whole() {
    let mut r = ResolveSpfUseCaseImpl::new(StubDns::new());
    let answer = r.resolve(&query("example.com", Some("v=spf1 foo -all"))).ok().unwrap();
    assert_eq!(answer.terms.len(), 2);
    match &answer.terms[0] {
        Term::Unknown(u) => {
            assert_eq!(u.raw_rdata, "foo");
            assert!(u.note.is_none());
        }
        _ => panic!("expected unknown"),
    }
    assert!(matches!(&answer.terms[1], Term::Directive(d)
        if d.qualifier == Some(QualifierType::Fail) && matches!(d.mechanism, Mechanism::All(_))));
}

#[test]
fn include_without_record_becomes_unknown_with_note() {
    let dns = StubDns::new().with_txt("nothing.example.com", &["google-site-verification=x"]);
    let mut r = ResolveSpfUseCaseImpl::new(dns);
    let answer = r
        .resolve(&query("example.com", Some("v=spf1 ~include:nothing.example.com")))
        .ok()
        .unwrap();
    match &answer.terms[0] {
        Term::Unknown(u) => {
            assert_eq!(u.raw_rdata, "~include:nothing.example.com");
            assert_eq!(
                u.note.as_deref(),
                Some("No SPF record found for 'nothing.example.com'")
            );
        }
        _ => panic!("expected unknown"),
    }
}

#[test]
fn failed_address_lookup_fails_the_resolve() {
    let mut dns = StubDns::new();
    dns.fail_a = true;
    let mut r = ResolveSpfUseCaseImpl::new(dns);
    let result = r.resolve(&query("example.com", Some("v=spf1 a -all")));
    assert!(matches!(result, Err(SpfError::DnsQueryFailed(_))));
}

#[test]
fn include_cycle_stops_at_the_nesting_limit() {
    let dns = StubDns::new().with_txt("loop.example.com", &["v=spf1 include:loop.example.com"]);
    let mut r = ResolveSpfUseCaseImpl::new(dns);
    let result = r.resolve(&query("loop.example.com", None));
    assert!(matches!(result, Err(SpfError::NestingTooDeep(_))));
}

#[test]
fn no_record_message_names_the_domain() {
    let dns = StubDns::new().with_txt("example.com", &["spf1 -all"]);
    let mut r = ResolveSpfUseCaseImpl::new(dns);
    match r.resolve(&query("example.com", None)) {
        Err(SpfError::NoSpfRecordFound(m)) => {
            assert_eq!(m, "No SPF record found for 'example.com'")
        }
        _ => panic!("expected NoSpfRecordFound"),
    }
}

#[test]
fn first_matching_txt_record_is_chosen() {
    let records = vec![
        "other".to_owned(),
        "v=spf1 -all".to_owned(),
        "v=spf1 +all".to_owned(),
    ];
    assert_eq!(select_spf_record(&records), Some("v=spf1 -all".to_owned()));
    assert_eq!(select_spf_record(&vec!["v=spf".to_owned()]), None);
}

#[test]
fn classify_follows_the_rules() {
    assert_eq!(classify("-all"), (Some(QualifierType::Fail), TermKind::All));
    assert_eq!(classify("+a"), (Some(QualifierType::Pass), TermKind::A));
    assert_eq!(classify("a/24"), (None, TermKind::Unknown));
    assert_eq!(classify("mx:example.com"), (None, TermKind::Mx));
    assert_eq!(classify("~include:x"), (Some(QualifierType::SoftFail), TermKind::Include));
    assert_eq!(classify("ip6:::1"), (None, TermKind::Ip6));
    assert_eq!(classify("redirect=x"), (None, TermKind::Redirect));
    assert_eq!(classify("ptr"), (None, TermKind::Unknown));
    assert_eq!(classify(""), (None, TermKind::Unknown));
    assert_eq!(QualifierType::Neutral.as_str(), "?");
}

#[test]
fn version_is_the_first_token() {
    let mut r = ResolveSpfUseCaseImpl::new(StubDns::new());
    let answer = r.resolve(&query("example.com", Some("spf1 -all"))).ok().unwrap();
    assert_eq!(answer.version.version, "spf1");
    assert_eq!(answer.raw_rdata.split(' ').next().unwrap(), answer.version.version);
}

#[test]
fn names_parse_back() {
    assert_eq!(QualifierType::from_str("~"), Ok(QualifierType::SoftFail));
    assert_eq!(QualifierType::from_str("*"), Err(()));
    assert_eq!(QualifierType::parse("+-"), None);
    assert_eq!(MechanismType::from_str("exists"), Ok(MechanismType::Exists));
    assert_eq!(MechanismType::parse("ip4"), Some(MechanismType::Ip4));
    assert_eq!(MechanismType::parse("ip"), None);
    for t in [MechanismType::All, MechanismType::Include, MechanismType::Ptr] {
        assert_eq!(MechanismType::parse(t.as_str()), Some(t));
    }
}

#[test]
fn in_memory_resolver_answers_its_record() {
    let mut dns = det::dns::InMemoryDnsResolver::new("v=spf1 -all".to_owned());
    for name in ["a.example", "b.example"] {
        let answer = dns
            .query_txt(&TxtRecordQuery { domain_name: name.to_owned() })
            .ok()
            .unwrap();
        assert_eq!(answer.records, vec!["v=spf1 -all".to_owned()]);
    }
    let a = dns.query_a(&ARecordQuery { domain_name: "x".to_owned() }).ok().unwrap();
    assert!(a.ip_addresses.is_empty());
}

#[test]
fn use_case_trait_resolves_like_the_method() {
    let mut r = ResolveSpfUseCaseImpl::new(StubDns::new());
    let answer = ResolveSpfUseCase::resolve(&mut r, &query("example.com", Some("v=spf1 ?all")))
        .ok()
        .unwrap();
    assert_eq!(answer.terms.len(), 1);
    assert!(matches!(&answer.terms[0], Term::Directive(d)
        if d.qualifier == Some(QualifierType::Neutral)));
}
