use det::detail::detail_lines;
use det::dns::{
    ARecord, ARecordQuery, DnsError, DnsResolver, MxRecord, MxRecordQuery, TxtRecord,
    TxtRecordQuery,
};
use det::model::IpAddress;
use det::resolver::{ResolveSpfQuery, ResolveSpfUseCaseImpl};

struct FixedDns;

impl DnsResolver for FixedDns {
    fn query_a(&mut self, _query: &ARecordQuery) -> Result<ARecord, DnsError> {
        Ok(ARecord { ip_addresses: vec![IpAddress::V4(0x7f00_0001)] })
    }

    fn query_txt(&mut self, query: &TxtRecordQuery) -> Result<TxtRecord, DnsError> {
        let records = if query.domain_name == "_spf.example.com" {
            vec!["v=spf1 ip6:2001:db8::/32 -all".to_owned()]
        } else {
            vec![]
        };
        Ok(TxtRecord { records })
    }

    fn query_mx(&mut self, _query: &MxRecordQuery) -> Result<MxRecord, DnsError> {
        Ok(MxRecord { exchanges: vec!["mx1.example.com".to_owned(), "mx2.example.com".to_owned()] })
    }
}

#[test]
fn detail_lists_every_term_with_nesting() {
    let mut r = ResolveSpfUseCaseImpl::new(FixedDns);
    let answer = r
        .resolve(&ResolveSpfQuery {
            domain_name: "example.com".to_owned(),
            record: Some(
                "v=spf1 a/x mx/24 ip4:192.0.2.1 include:_spf.example.com foo ~all".to_owned(),
            ),
        })
        .ok()
        .unwrap();
    let lines = detail_lines(&String::new(), &answer.terms);
    let texts: Vec<String> = lines.iter().map(|l| l.text.clone()).collect();
    assert_eq!(
        texts,
        vec![
            "- Unknown term: a/x".to_owned(),
            "- Unknown term: mx/24".to_owned(),
            "- ip4:192.0.2.1".to_owned(),
            "\t IPv4: 192.0.2.1".to_owned(),
            "- include:_spf.example.com".to_owned(),
            "\t Raw Record: v=spf1 ip6:2001:db8::/32 -all".to_owned(),
            "\t- ip6:2001:db8::/32".to_owned(),
            "\t\t IPv6: 2001:db8::/32".to_owned(),
            "\t- -all".to_owned(),
            "- Unknown term: foo".to_owned(),
            "- ~all".to_owned(),
        ]
    );
}

#[test]
fn detail_keeps_addresses_and_masks() {
    let mut r = ResolveSpfUseCaseImpl::new(FixedDns);
    let answer = r
        .resolve(&ResolveSpfQuery {
            domain_name: "example.com".to_owned(),
            record: Some("v=spf1 a:example.com/24 mx:example.com/16".to_owned()),
        })
        .ok()
        .unwrap();
    let lines = detail_lines(&String::new(), &answer.terms);
    assert_eq!(lines.len(), 4);
    assert_eq!(lines[0].text, "- a:example.com/24");
    assert_eq!(lines[1].text, "\t IP: ");
    assert_eq!(lines[1].addresses, vec![IpAddress::V4(0x7f00_0001)]);
    assert_eq!(lines[1].mask, Some(24));
    assert_eq!(lines[3].text, "\t MX: mx1.example.com/16, mx2.example.com/16");
}
