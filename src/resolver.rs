//! The resolver: from a domain (or a record given inline) to a tree of terms,
//! following `include:` and `redirect=` and looking up `a` and `mx`.
use vstd::prelude::*;

use crate::dns::{ARecordQuery, DnsResolver, MxRecordQuery, TxtRecordQuery};
use crate::error::SpfError;
use crate::model::{
    qualifier_of, AMechanism, AllMechanism, Directive, IncludeMechanism, Ip4Mechanism,
    Ip6Mechanism, Mechanism, Modifier, MxMechanism, QualifierType, RedirectModifier, Term,
    UnknownTerm, Version,
};
use crate::text::{
    chars_of, equals_at, has_prefix_at, lemma_split_nonempty, split_chars, split_on, starts_with,
    string_from,
};

verus! {

/// How deep `include:` and `redirect=` are followed below the record asked for.
pub const MAX_NESTING: usize = 10;

pub struct ResolveSpfQuery {
    /// The domain whose record is resolved.
    pub domain_name: String,
    /// The record to parse; when absent it is read from DNS.
    pub record: Option<String>,
}

pub struct SpfAnswer {
    /// The first token of the record.
    pub version: Version,
    /// The terms that follow it, in order.
    pub terms: Vec<Term>,
    /// The record exactly as parsed.
    pub raw_rdata: String,
}

/// What a token is read as.
#[derive(Clone, Copy, Debug, PartialEq, Eq, Structural)]
pub enum TermKind {
    Include,
    A,
    Mx,
    Ip4,
    Ip6,
    All,
    Redirect,
    Unknown,
}

pub open spec fn token_qualifier(t: Seq<char>) -> Option<QualifierType> {
    if t.len() > 0 {
        qualifier_of(t[0])
    } else {
        None
    }
}

/// The token without its qualifier.
pub open spec fn token_body(t: Seq<char>) -> Seq<char> {
    if token_qualifier(t) is Some {
        t.drop_first()
    } else {
        t
    }
}

/// The classification rules, first match wins.
pub open spec fn body_kind(b: Seq<char>) -> TermKind {
    if starts_with(b, "include:"@) {
        TermKind::Include
    } else if b == "a"@ || starts_with(b, "a:"@) {
        TermKind::A
    } else if b == "mx"@ || starts_with(b, "mx:"@) {
        TermKind::Mx
    } else if starts_with(b, "ip4:"@) {
        TermKind::Ip4
    } else if starts_with(b, "ip6:"@) {
        TermKind::Ip6
    } else if b == "all"@ {
        TermKind::All
    } else if starts_with(b, "redirect="@) {
        TermKind::Redirect
    } else {
        TermKind::Unknown
    }
}

pub open spec fn token_kind(t: Seq<char>) -> TermKind {
    body_kind(token_body(t))
}

/// Whether resolving a token of this kind queries DNS.
pub open spec fn kind_needs_dns(k: TermKind) -> bool {
    k == TermKind::Include || k == TermKind::Redirect || k == TermKind::A || k == TermKind::Mx
}

/// The index of the first `c` in `s`, or the length of `s` when there is none.
pub open spec fn index_of(s: Seq<char>, c: char) -> int
    decreases s.len(),
{
    if s.len() == 0 {
        0
    } else if s[0] == c {
        0
    } else {
        1 + index_of(s.drop_first(), c)
    }
}

/// What precedes the first `c` (all of `s` when there is none).
pub open spec fn before_char(s: Seq<char>, c: char) -> Seq<char> {
    s.take(index_of(s, c))
}

/// What follows the first `c` (nothing when there is none).
pub open spec fn after_char(s: Seq<char>, c: char) -> Seq<char> {
    if index_of(s, c) < s.len() {
        s.skip(index_of(s, c) + 1)
    } else {
        Seq::<char>::empty()
    }
}

pub open spec fn is_digit(c: char) -> bool {
    '0' <= c <= '9'
}

pub open spec fn digits_value(s: Seq<char>) -> nat
    decreases s.len(),
{
    if s.len() == 0 {
        0
    } else {
        digits_value(s.drop_last()) * 10 + (s.last() as nat - '0' as nat) as nat
    }
}

/// A CIDR prefix length: decimal digits whose value is at most `bound`.
pub open spec fn prefix_length(s: Seq<char>, bound: nat) -> Option<u8> {
    if s.len() > 0 && (forall|i: int| 0 <= i < s.len() ==> is_digit(#[trigger] s[i]))
        && digits_value(s) <= bound {
        Some(digits_value(s) as u8)
    } else {
        None
    }
}

/// The target of `a` / `mx`: what follows the first `:`, or the enclosing domain.
pub open spec fn host_spec(body: Seq<char>, domain: Seq<char>) -> Seq<char> {
    if index_of(body, ':') < body.len() {
        after_char(body, ':')
    } else {
        domain
    }
}

/// The prefix length of `a` / `mx`.
pub open spec fn host_prefix(body: Seq<char>, domain: Seq<char>) -> Option<u8> {
    prefix_length(after_char(host_spec(body, domain), '/'), 128)
}

/// The address written in `ip4:` / `ip6:`.
pub open spec fn address_text(body: Seq<char>) -> Seq<char> {
    before_char(after_char(body, ':'), '/')
}

/// The prefix length written in `ip4:` / `ip6:`, bounded by the family.
pub open spec fn address_prefix(body: Seq<char>, bound: nat) -> Option<u8> {
    prefix_length(after_char(after_char(body, ':'), '/'), bound)
}

pub open spec fn no_record_message(domain: Seq<char>) -> Seq<char> {
    "No SPF record found for '"@ + domain + "'"@
}

/// A resolved record: its version is its first token and each further token
/// gave the term at the same place.
pub open spec fn record_ok(
    version: Version,
    terms: Seq<Term>,
    raw: Seq<char>,
    domain: Seq<char>,
    depth: nat,
) -> bool
    decreases depth, 2nat,
{
    let toks = split_on(raw, ' ');
    &&& version.version@ == toks[0]
    &&& terms.len() + 1 == toks.len()
    &&& forall|i: int|
        0 <= i < terms.len() ==> term_ok(#[trigger] terms[i], toks[i + 1], domain, depth)
}

/// The term that token `tok` of a record of `domain` resolves to.
pub open spec fn term_ok(t: Term, tok: Seq<char>, domain: Seq<char>, depth: nat) -> bool
    decreases depth, 1nat,
{
    let q = token_qualifier(tok);
    let b = token_body(tok);
    match token_kind(tok) {
        TermKind::Include => match t {
            Term::Directive(d) => match d.mechanism {
                Mechanism::Include(m) => {
                    &&& d.qualifier == q
                    &&& m.raw_value@ == b
                    &&& m.domain_spec@ == after_char(b, ':')
                    &&& depth > 0
                    &&& starts_with(m.raw_rdata@, "v=spf1"@)
                    &&& record_ok(m.version, m.terms@, m.raw_rdata@, m.domain_spec@, (depth - 1) as nat)
                },
                _ => false,
            },
            Term::Unknown(u) => u.raw_rdata@ == tok && u.note is Some && u.note->Some_0@
                == no_record_message(after_char(b, ':')),
            _ => false,
        },
        TermKind::Redirect => match t {
            Term::Modifier(Modifier::Redirect(m)) => {
                &&& m.raw_value@ == tok
                &&& m.domain_spec@ == after_char(b, '=')
                &&& depth > 0
                &&& starts_with(m.raw_rdata@, "v=spf1"@)
                &&& record_ok(m.version, m.terms@, m.raw_rdata@, m.domain_spec@, (depth - 1) as nat)
            },
            Term::Unknown(u) => u.raw_rdata@ == tok && u.note is Some && u.note->Some_0@
                == no_record_message(after_char(b, '=')),
            _ => false,
        },
        TermKind::A => match t {
            Term::Directive(d) => match d.mechanism {
                Mechanism::A(m) => d.qualifier == q && m.raw_value@ == b && m.subnet_mask
                    == host_prefix(b, domain),
                _ => false,
            },
            _ => false,
        },
        TermKind::Mx => match t {
            Term::Directive(d) => match d.mechanism {
                Mechanism::Mx(m) => d.qualifier == q && m.raw_value@ == b && m.subnet_mask
                    == host_prefix(b, domain),
                _ => false,
            },
            _ => false,
        },
        TermKind::Ip4 => match t {
            Term::Directive(d) => match d.mechanism {
                Mechanism::Ip4(m) => d.qualifier == q && m.raw_value@ == b && m.ip_address@
                    == address_text(b) && m.subnet_mask == address_prefix(b, 32),
                _ => false,
            },
            _ => false,
        },
        TermKind::Ip6 => match t {
            Term::Directive(d) => match d.mechanism {
                Mechanism::Ip6(m) => d.qualifier == q && m.raw_value@ == b && m.ip_address@
                    == address_text(b) && m.subnet_mask == address_prefix(b, 128),
                _ => false,
            },
            _ => false,
        },
        TermKind::All => match t {
            Term::Directive(d) => match d.mechanism {
                Mechanism::All(m) => d.qualifier == q && m.raw_value@ == b,
                _ => false,
            },
            _ => false,
        },
        TermKind::Unknown => match t {
            Term::Unknown(u) => u.raw_rdata@ == tok && u.note is None,
            _ => false,
        },
    }
}

/// What `resolve` returns for `query`.
pub open spec fn answer_ok(a: SpfAnswer, query: ResolveSpfQuery) -> bool {
    &&& record_ok(a.version, a.terms@, a.raw_rdata@, query.domain_name@, MAX_NESTING as nat)
    &&& match query.record {
        Some(r) => a.raw_rdata@ == r@,
        None => starts_with(a.raw_rdata@, "v=spf1"@),
    }
}

pub open spec fn nesting_message() -> Seq<char> {
    "Too many nested 'include' or 'redirect' terms"@
}

/// Whether no term of `raw` is an `include:` or a `redirect=`.
pub open spec fn follows_nothing(raw: Seq<char>) -> bool {
    forall|i: int|
        1 <= i < split_on(raw, ' ').len() ==> token_kind(#[trigger] split_on(raw, ' ')[i])
            != TermKind::Include && token_kind(split_on(raw, ' ')[i]) != TermKind::Redirect
}

/// What `resolve` promises for `query`, whatever DNS answers. Nesting is
/// followed `MAX_NESTING` levels deep; a record that goes deeper (an
/// `include:` cycle, say) gives `NestingTooDeep`, which a record with no
/// `include:` or `redirect=` never gives.
pub open spec fn resolve_post(query: ResolveSpfQuery, r: Result<SpfAnswer, SpfError>) -> bool {
    &&& (r matches Ok(a) ==> answer_ok(a, query))
    &&& (r matches Err(SpfError::NoSpfRecordFound(m)) ==> query.record is None && m@
        == no_record_message(query.domain_name@))
    &&& (r matches Err(SpfError::NestingTooDeep(m)) ==> m@ == nesting_message() && (
    query.record matches Some(rec) ==> !follows_nothing(rec@)))
    &&& (r matches Err(e) ==> (e is NoSpfRecordFound || e is DnsQueryFailed
        || e is NestingTooDeep))
    &&& (query.record is Some && resolves_offline(query.record->Some_0@) ==> r is Ok)
}

/// Whether every term of `raw` can be resolved without DNS.
pub open spec fn resolves_offline(raw: Seq<char>) -> bool {
    forall|i: int|
        1 <= i < split_on(raw, ' ').len() ==> !kind_needs_dns(
            token_kind(#[trigger] split_on(raw, ' ')[i]),
        )
}

proof fn lemma_index_of(s: Seq<char>, c: char, i: int)
    requires
        0 <= i <= s.len(),
        forall|k: int| 0 <= k < i ==> s[k] != c,
        i == s.len() || s[i] == c,
    ensures
        index_of(s, c) == i,
    decreases i,
{
    if i > 0 {
        lemma_index_of(s.drop_first(), c, i - 1);
    }
}

/// The first index at or after `from` that holds `c`, or the length.
fn find_from(cs: &Vec<char>, from: usize, c: char) -> (r: usize)
    requires
        from <= cs@.len(),
    ensures
        r == from + index_of(cs@.skip(from as int), c),
        from <= r <= cs@.len(),
{
    let mut i: usize = from;
    while i < cs.len() && cs[i] != c
        invariant
            from <= i <= cs@.len(),
            forall|k: int| from <= k < i ==> cs@[k] != c,
        decreases cs.len() - i,
    {
        i = i + 1;
    }
    proof {
        lemma_index_of(cs@.skip(from as int), c, i - from);
    }
    i
}

/// The value of the digits `cs[from..]` as a prefix length of at most `bound`.
fn parse_prefix(cs: &Vec<char>, from: usize, bound: u8) -> (r: Option<u8>)
    requires
        from <= cs@.len(),
    ensures
        r == prefix_length(cs@.skip(from as int), bound as nat),
{
    let ghost s = cs@.skip(from as int);
    if from == cs.len() {
        return None;
    }
    let mut v: u32 = 0;
    let mut i: usize = from;
    while i < cs.len()
        invariant
            from <= i <= cs@.len(),
            s == cs@.skip(from as int),
            forall|k: int| 0 <= k < i - from ==> is_digit(#[trigger] s[k]),
            v == if digits_value(s.take(i - from)) >= 256 {
                256
            } else {
                digits_value(s.take(i - from))
            },
        decreases cs.len() - i,
    {
        let c = cs[i];
        if !('0' <= c && c <= '9') {
            assert(!is_digit(s[i - from]));
            return None;
        }
        let d: u32 = (c as u32) - ('0' as u32);
        proof {
            assert(s.take(i - from + 1).drop_last() =~= s.take(i - from));
        }
        if v == 256 || v * 10 + d >= 256 {
            v = 256;
        } else {
            v = v * 10 + d;
        }
        i = i + 1;
    }
    proof {
        assert(s.take(i - from) =~= s);
    }
    if v <= bound as u32 {
        Some(v as u8)
    } else {
        None
    }
}

/// Splits `cs[from..]` at its first `/` into the text before it and the
/// prefix length after it.
fn text_and_prefix(cs: &Vec<char>, from: usize, bound: u8) -> (r: (String, Option<u8>))
    requires
        from <= cs@.len(),
    ensures
        r.0@ == before_char(cs@.skip(from as int), '/'),
        r.1 == prefix_length(after_char(cs@.skip(from as int), '/'), bound as nat),
{
    let k = find_from(cs, from, '/');
    let text = string_from(cs, from, k);
    let pf: usize = if k < cs.len() {
        k + 1
    } else {
        cs.len()
    };
    let prefix = parse_prefix(cs, pf, bound);
    proof {
        let s = cs@.skip(from as int);
        assert(s.take(k - from) =~= cs@.subrange(from as int, k as int));
        if k < cs@.len() {
            assert(s.skip(k - from + 1) =~= cs@.skip(pf as int));
        } else {
            assert(cs@.skip(pf as int) =~= Seq::<char>::empty());
        }
    }
    (text, prefix)
}

/// The index just after the first `c` at or after `from`, or the length.
fn after_from(cs: &Vec<char>, from: usize, c: char) -> (r: usize)
    requires
        from <= cs@.len(),
    ensures
        r <= cs@.len(),
        cs@.skip(r as int) == after_char(cs@.skip(from as int), c),
{
    let j = find_from(cs, from, c);
    if j < cs.len() {
        proof {
            assert(cs@.skip(from as int).skip(j - from + 1) =~= cs@.skip(j + 1));
        }
        j + 1
    } else {
        proof {
            assert(cs@.skip(cs@.len() as int) =~= Seq::<char>::empty());
        }
        cs.len()
    }
}

fn body_kind_at(cs: &Vec<char>, start: usize) -> (r: TermKind)
    requires
        start <= cs@.len(),
    ensures
        r == body_kind(cs@.skip(start as int)),
{
    if has_prefix_at(cs, start, "include:") {
        TermKind::Include
    } else if equals_at(cs, start, "a") || has_prefix_at(cs, start, "a:") {
        TermKind::A
    } else if equals_at(cs, start, "mx") || has_prefix_at(cs, start, "mx:") {
        TermKind::Mx
    } else if has_prefix_at(cs, start, "ip4:") {
        TermKind::Ip4
    } else if has_prefix_at(cs, start, "ip6:") {
        TermKind::Ip6
    } else if equals_at(cs, start, "all") {
        TermKind::All
    } else if has_prefix_at(cs, start, "redirect=") {
        TermKind::Redirect
    } else {
        TermKind::Unknown
    }
}

/// The qualifier of a token and the index where its body starts.
fn split_qualifier(cs: &Vec<char>) -> (r: (Option<QualifierType>, usize))
    ensures
        r.0 == token_qualifier(cs@),
        r.1 <= cs@.len(),
        cs@.skip(r.1 as int) == token_body(cs@),
{
    if cs.len() > 0 {
        let q = crate::model::qualifier_of_char(cs[0]);
        if q.is_some() {
            assert(cs@.skip(1) =~= cs@.drop_first());
            return (q, 1);
        }
    }
    assert(cs@.skip(0) =~= cs@);
    (None, 0)
}

/// The qualifier and the kind that the classification rules give `token`.
pub fn classify(token: &str) -> (r: (Option<QualifierType>, TermKind))
    ensures
        r.0 == token_qualifier(token@),
        r.1 == token_kind(token@),
{
    let cs = chars_of(token);
    let (q, start) = split_qualifier(&cs);
    (q, body_kind_at(&cs, start))
}

/// The first of `records` that starts with `v=spf1`.
pub fn select_spf_record(records: &Vec<String>) -> (r: Option<String>)
    ensures
        match r {
            Some(s) => exists|i: int|
                0 <= i < records@.len() && starts_with(records@[i]@, "v=spf1"@) && s@
                    == records@[i]@ && forall|k: int|
                    0 <= k < i ==> !starts_with(#[trigger] records@[k]@, "v=spf1"@),
            None => forall|k: int|
                0 <= k < records@.len() ==> !starts_with(#[trigger] records@[k]@, "v=spf1"@),
        },
{
    let mut i: usize = 0;
    while i < records.len()
        invariant
            i <= records@.len(),
            forall|k: int| 0 <= k < i ==> !starts_with(#[trigger] records@[k]@, "v=spf1"@),
        decreases records.len() - i,
    {
        let cs = chars_of(records[i].as_str());
        let found = has_prefix_at(&cs, 0, "v=spf1");
        assert(cs@.skip(0) =~= cs@);
        if found {
            return Some(records[i].clone());
        }
        i = i + 1;
    }
    None
}

pub fn no_record_message_for(domain: &String) -> (r: String)
    ensures
        r@ == no_record_message(domain@),
{
    let mut r = String::new();
    r.append("No SPF record found for '");
    r.append(domain.as_str());
    r.append("'");
    r
}

/// Resolves the SPF record that a query names.
pub trait ResolveSpfUseCase {
    fn resolve(&mut self, query: &ResolveSpfQuery) -> Result<SpfAnswer, SpfError>;
}

impl<D: DnsResolver> ResolveSpfUseCase for ResolveSpfUseCaseImpl<D> {
    fn resolve(&mut self, query: &ResolveSpfQuery) -> (r: Result<SpfAnswer, SpfError>)
        ensures
            resolve_post(*query, r),
    {
        self.resolve_nested(query, MAX_NESTING)
    }
}

/// Resolves SPF records against a DNS resolver.
pub struct ResolveSpfUseCaseImpl<D: DnsResolver> {
    pub dns_resolver: D,
}

impl<D: DnsResolver> ResolveSpfUseCaseImpl<D> {
    pub fn new(dns_resolver: D) -> (r: Self)
        ensures
            r.dns_resolver == dns_resolver,
    {
        ResolveSpfUseCaseImpl { dns_resolver }
    }

    /// Resolves the record of `query.domain_name`, or `query.record` when given.
    pub fn resolve(&mut self, query: &ResolveSpfQuery) -> (r: Result<SpfAnswer, SpfError>)
        ensures
            resolve_post(*query, r),
    {
        self.resolve_nested(query, MAX_NESTING)
    }

    fn resolve_nested(&mut self, query: &ResolveSpfQuery, depth: usize) -> (r: Result<
        SpfAnswer,
        SpfError,
    >)
        ensures
            r matches Ok(a) ==> record_ok(
                a.version,
                a.terms@,
                a.raw_rdata@,
                query.domain_name@,
                depth as nat,
            ) && match query.record {
                Some(rec) => a.raw_rdata@ == rec@,
                None => starts_with(a.raw_rdata@, "v=spf1"@),
            },
            r matches Err(SpfError::NoSpfRecordFound(m)) ==> query.record is None && m@
                == no_record_message(query.domain_name@),
            r matches Err(e) ==> (e is NoSpfRecordFound || e is DnsQueryFailed
                || e is NestingTooDeep),
            r matches Err(SpfError::NestingTooDeep(m)) ==> m@ == nesting_message() && (
            query.record matches Some(rec) ==> !follows_nothing(rec@)),
            query.record is Some && resolves_offline(query.record->Some_0@) ==> r is Ok,
        decreases depth, 2usize,
    {
        let raw = match &query.record {
            Some(rec) => rec.clone(),
            None => {
                let answer = self.dns_resolver.query_txt(
                    &TxtRecordQuery { domain_name: query.domain_name.clone() },
                );
                match answer {
                    Err(e) => {
                        return Err(SpfError::DnsQueryFailed(e.message));
                    },
                    Ok(txt) => match select_spf_record(&txt.records) {
                        Some(rec) => rec,
                        None => {
                            return Err(
                                SpfError::NoSpfRecordFound(
                                    no_record_message_for(&query.domain_name),
                                ),
                            );
                        },
                    },
                }
            },
        };
        let parts = split_chars(raw.as_str(), ' ');
        proof {
            lemma_split_nonempty(raw@, ' ');
        }
        let ghost toks = split_on(raw@, ' ');
        let version = Version { version: parts[0].clone() };
        let mut terms: Vec<Term> = Vec::new();
        let mut i: usize = 1;
        while i < parts.len()
            invariant
                1 <= i <= parts@.len(),
                parts@.len() == toks.len(),
                toks == split_on(raw@, ' '),
                forall|k: int| 0 <= k < parts@.len() ==> #[trigger] parts@[k]@ == toks[k],
                terms@.len() + 1 == i,
                forall|k: int|
                    0 <= k < terms@.len() ==> term_ok(
                        #[trigger] terms@[k],
                        toks[k + 1],
                        query.domain_name@,
                        depth as nat,
                    ),
                query.record matches Some(rec) ==> rec@ == raw@,
            decreases parts.len() - i,
        {
            let t = self.resolve_term(&parts[i], &query.domain_name, depth);
            match t {
                Ok(t) => {
                    terms.push(t);
                },
                Err(e) => {
                    proof {
                        if e is NestingTooDeep {
                            assert(token_kind(toks[i as int]) == TermKind::Include
                                || token_kind(toks[i as int]) == TermKind::Redirect);
                            assert(!follows_nothing(raw@));
                        }
                    }
                    return Err(e);
                },
            }
            i = i + 1;
        }
        Ok(SpfAnswer { version, terms, raw_rdata: raw })
    }

    /// Resolves one token of a record of `domain`.
    fn resolve_term(&mut self, token: &String, domain: &String, depth: usize) -> (r: Result<
        Term,
        SpfError,
    >)
        ensures
            r matches Ok(t) ==> term_ok(t, token@, domain@, depth as nat),
            r matches Err(e) ==> (e is DnsQueryFailed || e is NestingTooDeep),
            r matches Err(SpfError::NestingTooDeep(m)) ==> m@ == nesting_message() && (
            token_kind(token@) == TermKind::Include || token_kind(token@) == TermKind::Redirect),
            !kind_needs_dns(token_kind(token@)) ==> r is Ok,
        decreases depth, 1usize,
    {
        let cs = chars_of(token.as_str());
        let (q, start) = split_qualifier(&cs);
        let kind = body_kind_at(&cs, start);
        match kind {
            TermKind::Include | TermKind::Redirect => self.nested_term(
                token,
                &cs,
                q,
                start,
                kind,
                depth,
            ),
            TermKind::A | TermKind::Mx => self.host_term(&cs, q, start, kind, domain),
            TermKind::Ip4 | TermKind::Ip6 => Ok(address_term(&cs, q, start, kind)),
            TermKind::All => {
                let raw_value = string_from(&cs, start, cs.len());
                assert(raw_value@ =~= cs@.skip(start as int));
                Ok(
                    Term::Directive(
                        Directive {
                            qualifier: q,
                            mechanism: Mechanism::All(AllMechanism { raw_value }),
                        },
                    ),
                )
            },
            TermKind::Unknown => {
                Ok(Term::Unknown(UnknownTerm { raw_rdata: token.clone(), note: None }))
            },
        }
    }

    /// `include:` and `redirect=`: resolves the target's record one level down.
    fn nested_term(
        &mut self,
        token: &String,
        cs: &Vec<char>,
        q: Option<QualifierType>,
        start: usize,
        kind: TermKind,
        depth: usize,
    ) -> (r: Result<Term, SpfError>)
        requires
            cs@ == token@,
            q == token_qualifier(token@),
            start <= cs@.len(),
            cs@.skip(start as int) == token_body(token@),
            kind == token_kind(token@),
            kind == TermKind::Include || kind == TermKind::Redirect,
        ensures
            r matches Ok(t) ==> term_ok(t, token@, Seq::<char>::empty(), depth as nat),
            r matches Err(e) ==> (e is DnsQueryFailed || e is NestingTooDeep),
            r matches Err(SpfError::NestingTooDeep(m)) ==> m@ == nesting_message(),
        decreases depth, 0usize,
    {
        let ghost b = cs@.skip(start as int);
        let sep = if kind == TermKind::Include {
            ':'
        } else {
            '='
        };
        let a0 = after_from(cs, start, sep);
        let target = string_from(cs, a0, cs.len());
        assert(target@ =~= cs@.skip(a0 as int));
        if depth == 0 {
            let m = String::from_str("Too many nested 'include' or 'redirect' terms");
            return Err(SpfError::NestingTooDeep(m));
        }
        let nested = self.resolve_nested(
            &ResolveSpfQuery { domain_name: target.clone(), record: None },
            depth - 1,
        );
        match nested {
            Ok(a) => {
                if kind == TermKind::Include {
                    let raw_value = string_from(cs, start, cs.len());
                    assert(raw_value@ =~= b);
                    Ok(
                        Term::Directive(
                            Directive {
                                qualifier: q,
                                mechanism: Mechanism::Include(
                                    IncludeMechanism {
                                        raw_value,
                                        version: a.version,
                                        domain_spec: target,
                                        terms: a.terms,
                                        raw_rdata: a.raw_rdata,
                                    },
                                ),
                            },
                        ),
                    )
                } else {
                    Ok(
                        Term::Modifier(
                            Modifier::Redirect(
                                RedirectModifier {
                                    raw_value: token.clone(),
                                    version: a.version,
                                    domain_spec: target,
                                    terms: a.terms,
                                    raw_rdata: a.raw_rdata,
                                },
                            ),
                        ),
                    )
                }
            },
            Err(SpfError::NoSpfRecordFound(m)) => {
                Ok(Term::Unknown(UnknownTerm { raw_rdata: token.clone(), note: Some(m) }))
            },
            Err(e) => Err(e),
        }
    }

    /// `a` and `mx`: looks the target up and keeps what came back.
    fn host_term(
        &mut self,
        cs: &Vec<char>,
        q: Option<QualifierType>,
        start: usize,
        kind: TermKind,
        domain: &String,
    ) -> (r: Result<Term, SpfError>)
        requires
            q == token_qualifier(cs@),
            start <= cs@.len(),
            cs@.skip(start as int) == token_body(cs@),
            kind == token_kind(cs@),
            kind == TermKind::A || kind == TermKind::Mx,
        ensures
            r matches Ok(t) ==> term_ok(t, cs@, domain@, 0),
            r matches Err(e) ==> e is DnsQueryFailed,
    {
        let ghost b = cs@.skip(start as int);
        let raw_value = string_from(cs, start, cs.len());
        assert(raw_value@ =~= b);
        let j = find_from(cs, start, ':');
        let (name, prefix) = if j < cs.len() {
            let r = text_and_prefix(cs, j + 1, 128);
            proof {
                assert(b.skip(j - start + 1) =~= cs@.skip(j + 1));
            }
            r
        } else {
            let dcs = chars_of(domain.as_str());
            let r = text_and_prefix(&dcs, 0, 128);
            proof {
                assert(dcs@.skip(0) =~= domain@);
            }
            r
        };
        if kind == TermKind::A {
            match self.dns_resolver.query_a(&ARecordQuery { domain_name: name }) {
                Ok(rec) => Ok(
                    Term::Directive(
                        Directive {
                            qualifier: q,
                            mechanism: Mechanism::A(
                                AMechanism {
                                    raw_value,
                                    ip_addresses: rec.ip_addresses,
                                    subnet_mask: prefix,
                                },
                            ),
                        },
                    ),
                ),
                Err(e) => Err(SpfError::DnsQueryFailed(e.message)),
            }
        } else {
            match self.dns_resolver.query_mx(&MxRecordQuery { domain_name: name }) {
                Ok(rec) => Ok(
                    Term::Directive(
                        Directive {
                            qualifier: q,
                            mechanism: Mechanism::Mx(
                                MxMechanism { raw_value, hosts: rec.exchanges, subnet_mask: prefix },
                            ),
                        },
                    ),
                ),
                Err(e) => Err(SpfError::DnsQueryFailed(e.message)),
            }
        }
    }
}

/// `ip4:` and `ip6:`: the address as written and its prefix length.
fn address_term(cs: &Vec<char>, q: Option<QualifierType>, start: usize, kind: TermKind) -> (r:
    Term)
    requires
        q == token_qualifier(cs@),
        start <= cs@.len(),
        cs@.skip(start as int) == token_body(cs@),
        kind == token_kind(cs@),
        kind == TermKind::Ip4 || kind == TermKind::Ip6,
    ensures
        term_ok(r, cs@, Seq::<char>::empty(), 0),
{
    let raw_value = string_from(cs, start, cs.len());
    assert(raw_value@ =~= cs@.skip(start as int));
    let a0 = after_from(cs, start, ':');
    let bound: u8 = if kind == TermKind::Ip4 {
        32
    } else {
        128
    };
    let (ip_address, subnet_mask) = text_and_prefix(cs, a0, bound);
    if kind == TermKind::Ip4 {
        Term::Directive(
            Directive {
                qualifier: q,
                mechanism: Mechanism::Ip4(Ip4Mechanism { raw_value, ip_address, subnet_mask }),
            },
        )
    } else {
        Term::Directive(
            Directive {
                qualifier: q,
                mechanism: Mechanism::Ip6(Ip6Mechanism { raw_value, ip_address, subnet_mask }),
            },
        )
    }
}

} // verus!
