//! The DNS interface that the resolver queries.
use vstd::prelude::*;

use crate::model::IpAddress;

verus! {

pub struct ARecordQuery {
    pub domain_name: String,
}

pub struct TxtRecordQuery {
    pub domain_name: String,
}

pub struct MxRecordQuery {
    pub domain_name: String,
}

/// IPv4 and IPv6 addresses of a name.
pub struct ARecord {
    pub ip_addresses: Vec<IpAddress>,
}

/// TXT strings of a name, with `\32` already turned into spaces.
pub struct TxtRecord {
    pub records: Vec<String>,
}

/// Mail exchanges of a name.
pub struct MxRecord {
    pub exchanges: Vec<String>,
}

/// A query that the DNS resolver could not answer.
pub struct DnsError {
    pub message: String,
}

/// The three queries the resolver needs. Implementations may block.
pub trait DnsResolver {
    fn query_a(&mut self, query: &ARecordQuery) -> Result<ARecord, DnsError>;

    fn query_txt(&mut self, query: &TxtRecordQuery) -> Result<TxtRecord, DnsError>;

    fn query_mx(&mut self, query: &MxRecordQuery) -> Result<MxRecord, DnsError>;
}

/// A DNS resolver that answers every TXT query with one fixed string, and every
/// address or exchange query with nothing.
pub struct InMemoryDnsResolver {
    rdata: String,
}

impl InMemoryDnsResolver {
    pub fn new(rdata: String) -> (r: InMemoryDnsResolver)
        ensures
            r.rdata() == rdata,
    {
        InMemoryDnsResolver { rdata }
    }

    pub closed spec fn rdata(&self) -> String {
        self.rdata
    }

    pub fn txt_answer(&self) -> (r: TxtRecord)
        ensures
            r.records@.len() == 1,
            r.records@[0] == self.rdata(),
    {
        let mut records: Vec<String> = Vec::new();
        records.push(self.rdata.clone());
        TxtRecord { records }
    }
}

impl DnsResolver for InMemoryDnsResolver {
    fn query_a(&mut self, query: &ARecordQuery) -> (r: Result<ARecord, DnsError>)
        ensures
            r matches Ok(rec) && rec.ip_addresses@.len() == 0,
            final(self).rdata() == old(self).rdata(),
    {
        Ok(ARecord { ip_addresses: Vec::new() })
    }

    fn query_txt(&mut self, query: &TxtRecordQuery) -> (r: Result<TxtRecord, DnsError>)
        ensures
            r matches Ok(rec) && rec.records@ == seq![old(self).rdata()],
            final(self).rdata() == old(self).rdata(),
    {
        let rec = self.txt_answer();
        assert(rec.records@ =~= seq![self.rdata()]);
        Ok(rec)
    }

    fn query_mx(&mut self, query: &MxRecordQuery) -> (r: Result<MxRecord, DnsError>)
        ensures
            r matches Ok(rec) && rec.exchanges@.len() == 0,
            final(self).rdata() == old(self).rdata(),
    {
        Ok(MxRecord { exchanges: Vec::new() })
    }
}

} // verus!
