//! The detailed listing of a term tree: one indented line per term, nested
//! records one tab deeper.
use vstd::prelude::*;

use crate::model::{qualifier_text, IpAddress, Mechanism, Modifier, Term};
use crate::text::{concat2, concat3, decimal_string, decimal_text};

verus! {

/// One line of the listing. Where `addresses` is not empty the line goes on
/// with those addresses, separated by `, `, each followed by `/mask` when a
/// mask is set.
pub struct DetailLine {
    pub text: String,
    pub addresses: Vec<IpAddress>,
    pub mask: Option<u8>,
}

pub open spec fn line_view(l: DetailLine) -> (Seq<char>, Seq<IpAddress>, Option<u8>) {
    (l.text@, l.addresses@, l.mask)
}

pub open spec fn text_line(text: Seq<char>) -> (Seq<char>, Seq<IpAddress>, Option<u8>) {
    (text, Seq::<IpAddress>::empty(), None)
}

/// `text`, then `/mask` when a mask is set.
pub open spec fn with_mask(text: Seq<char>, mask: Option<u8>) -> Seq<char> {
    match mask {
        Some(m) => text + "/"@ + decimal_text(m as nat),
        None => text,
    }
}

/// Host names with their masks, separated by `, `.
pub open spec fn host_list(hosts: Seq<String>, mask: Option<u8>) -> Seq<char>
    decreases hosts.len(),
{
    if hosts.len() == 0 {
        Seq::<char>::empty()
    } else if hosts.len() == 1 {
        with_mask(hosts[0]@, mask)
    } else {
        host_list(hosts.drop_last(), mask) + ", "@ + with_mask(hosts.last()@, mask)
    }
}

/// The listing of `ts` at `indent`.
pub open spec fn detail_spec(indent: Seq<char>, ts: Seq<Term>) -> Seq<
    (Seq<char>, Seq<IpAddress>, Option<u8>),
>
    decreases ts,
{
    if ts.len() == 0 {
        Seq::empty()
    } else {
        let tabs = indent + "\t"@;
        detail_spec(indent, ts.subrange(0, ts.len() - 1)) + match ts[ts.len() - 1] {
            Term::Directive(d) => {
                let head = text_line(indent + "- "@ + qualifier_text(d.qualifier) + match d.mechanism {
                    Mechanism::All(m) => m.raw_value@,
                    Mechanism::A(m) => m.raw_value@,
                    Mechanism::Include(m) => m.raw_value@,
                    Mechanism::Mx(m) => m.raw_value@,
                    Mechanism::Ptr(m) => m.raw_value@,
                    Mechanism::Ip4(m) => m.raw_value@,
                    Mechanism::Ip6(m) => m.raw_value@,
                    Mechanism::Exists(m) => m.raw_value@,
                });
                match d.mechanism {
                    Mechanism::Include(m) => seq![
                        head,
                        text_line(tabs + " Raw Record: "@ + m.raw_rdata@),
                    ] + detail_spec(tabs, m.terms@),
                    Mechanism::A(m) => seq![head, (tabs + " IP: "@, m.ip_addresses@, m.subnet_mask)],
                    Mechanism::Mx(m) => seq![
                        head,
                        text_line(tabs + " MX: "@ + host_list(m.hosts@, m.subnet_mask)),
                    ],
                    Mechanism::Ip4(m) => seq![
                        head,
                        text_line(tabs + " IPv4: "@ + with_mask(m.ip_address@, m.subnet_mask)),
                    ],
                    Mechanism::Ip6(m) => seq![
                        head,
                        text_line(tabs + " IPv6: "@ + with_mask(m.ip_address@, m.subnet_mask)),
                    ],
                    _ => seq![head],
                }
            },
            Term::Modifier(Modifier::Redirect(r)) => seq![
                text_line(indent + "- "@ + r.raw_value@),
                text_line(tabs + "Raw Record: "@ + r.raw_rdata@),
            ] + detail_spec(tabs, r.terms@),
            Term::Modifier(Modifier::Exp(e)) => seq![
                text_line(indent + "- "@ + e.raw_value@),
                text_line(indent + "- Modifier '"@ + e.raw_value@ + "' not implemented yet"@),
            ],
            Term::Unknown(u) => seq![text_line(indent + "- Unknown term: "@ + u.raw_rdata@)],
        }
    }
}

fn plain(text: String) -> (r: DetailLine)
    ensures
        line_view(r) == text_line(text@),
{
    DetailLine { text, addresses: Vec::new(), mask: None }
}

fn masked(text: &str, mask: Option<u8>) -> (r: String)
    ensures
        r@ == with_mask(text@, mask),
{
    match mask {
        Some(m) => {
            let digits = decimal_string(m as usize);
            concat3(text, "/", digits.as_str())
        },
        None => {
            proof {
                reveal_strlit("");
            }
            let r = concat2(text, "");
            assert(r@ =~= text@);
            r
        },
    }
}

fn hosts_text(hosts: &Vec<String>, mask: Option<u8>) -> (r: String)
    ensures
        r@ == host_list(hosts@, mask),
{
    let mut out = String::new();
    let mut i: usize = 0;
    while i < hosts.len()
        invariant
            i <= hosts@.len(),
            out@ == host_list(hosts@.take(i as int), mask),
        decreases hosts.len() - i,
    {
        let h = masked(hosts[i].as_str(), mask);
        proof {
            assert(hosts@.take(i + 1).drop_last() =~= hosts@.take(i as int));
        }
        if i == 0 {
            out = h;
        } else {
            out = concat3(out.as_str(), ", ", h.as_str());
        }
        i = i + 1;
    }
    assert(hosts@.take(hosts@.len() as int) =~= hosts@);
    out
}

fn mechanism_text(m: &Mechanism) -> (r: &String)
    ensures
        r@ == match *m {
            Mechanism::All(x) => x.raw_value@,
            Mechanism::A(x) => x.raw_value@,
            Mechanism::Include(x) => x.raw_value@,
            Mechanism::Mx(x) => x.raw_value@,
            Mechanism::Ptr(x) => x.raw_value@,
            Mechanism::Ip4(x) => x.raw_value@,
            Mechanism::Ip6(x) => x.raw_value@,
            Mechanism::Exists(x) => x.raw_value@,
        },
{
    match m {
        Mechanism::All(x) => &x.raw_value,
        Mechanism::A(x) => &x.raw_value,
        Mechanism::Include(x) => &x.raw_value,
        Mechanism::Mx(x) => &x.raw_value,
        Mechanism::Ptr(x) => &x.raw_value,
        Mechanism::Ip4(x) => &x.raw_value,
        Mechanism::Ip6(x) => &x.raw_value,
        Mechanism::Exists(x) => &x.raw_value,
    }
}

/// Lists `terms` at `indent`: each directive with its qualifier, the
/// addresses, exchanges or address literal it carries, and the record that
/// an `include:` or `redirect=` brought in, one tab deeper.
pub fn detail_lines(indent: &String, terms: &[Term]) -> (r: Vec<DetailLine>)
    ensures
        r@.map_values(|l: DetailLine| line_view(l)) == detail_spec(indent@, terms@),
    decreases terms@,
{
    let mut lines: Vec<DetailLine> = Vec::new();
    let ghost ind = indent@;
    let tabs = concat2(indent.as_str(), "\t");
    let mut i: usize = 0;
    assert(terms@.subrange(0, 0) =~= Seq::<Term>::empty());
    assert(lines@.map_values(|l: DetailLine| line_view(l)) =~= Seq::empty());
    while i < terms.len()
        invariant
            i <= terms@.len(),
            tabs@ == ind + "\t"@,
            ind == indent@,
            lines@.map_values(|l: DetailLine| line_view(l)) == detail_spec(
                ind,
                terms@.subrange(0, i as int),
            ),
        decreases terms.len() - i,
    {
        let ghost before = terms@.subrange(0, i as int);
        let ghost upto = terms@.subrange(0, i + 1);
        assert(upto.subrange(0, upto.len() - 1) =~= before);
        assert(upto[upto.len() - 1] == terms@[i as int]);
        let ghost old_lines = lines@;
        let mut added: Vec<DetailLine> = Vec::new();
        match &terms[i] {
            Term::Directive(d) => {
                let q = match d.qualifier {
                    Some(q) => q.as_str(),
                    None => {
                        proof {
                            reveal_strlit("");
                        }
                        ""
                    },
                };
                let head = concat3(indent.as_str(), "- ", q);
                let head = concat2(head.as_str(), mechanism_text(&d.mechanism).as_str());
                added.push(plain(head));
                match &d.mechanism {
                    Mechanism::Include(m) => {
                        let raw = concat3(tabs.as_str(), " Raw Record: ", m.raw_rdata.as_str());
                        added.push(plain(raw));
                        proof {
                            assert(decreases_to!(terms@ => terms@[i as int]));
                            assert(decreases_to!(m.terms => m.terms@));
                        }
                        let mut nested = detail_lines(&tabs, m.terms.as_slice());
                        added.append(&mut nested);
                    },
                    Mechanism::A(m) => {
                        added.push(
                            DetailLine {
                                text: concat2(tabs.as_str(), " IP: "),
                                addresses: m.ip_addresses.clone(),
                                mask: m.subnet_mask,
                            },
                        );
                    },
                    Mechanism::Mx(m) => {
                        let hosts = hosts_text(&m.hosts, m.subnet_mask);
                        added.push(plain(concat3(tabs.as_str(), " MX: ", hosts.as_str())));
                    },
                    Mechanism::Ip4(m) => {
                        let a = masked(m.ip_address.as_str(), m.subnet_mask);
                        added.push(plain(concat3(tabs.as_str(), " IPv4: ", a.as_str())));
                    },
                    Mechanism::Ip6(m) => {
                        let a = masked(m.ip_address.as_str(), m.subnet_mask);
                        added.push(plain(concat3(tabs.as_str(), " IPv6: ", a.as_str())));
                    },
                    _ => {},
                }
            },
            Term::Modifier(Modifier::Redirect(r)) => {
                added.push(plain(concat3(indent.as_str(), "- ", r.raw_value.as_str())));
                added.push(plain(concat3(tabs.as_str(), "Raw Record: ", r.raw_rdata.as_str())));
                proof {
                    assert(decreases_to!(terms@ => terms@[i as int]));
                    assert(decreases_to!(r.terms => r.terms@));
                }
                let mut nested = detail_lines(&tabs, r.terms.as_slice());
                added.append(&mut nested);
            },
            Term::Modifier(Modifier::Exp(e)) => {
                added.push(plain(concat3(indent.as_str(), "- ", e.raw_value.as_str())));
                let note = concat3(indent.as_str(), "- Modifier '", e.raw_value.as_str());
                added.push(plain(concat2(note.as_str(), "' not implemented yet")));
            },
            Term::Unknown(u) => {
                added.push(plain(concat3(indent.as_str(), "- Unknown term: ", u.raw_rdata.as_str())));
            },
        }
        let ghost added_view = added@.map_values(|l: DetailLine| line_view(l));
        lines.append(&mut added);
        assert(lines@.map_values(|l: DetailLine| line_view(l)) =~= old_lines.map_values(
            |l: DetailLine| line_view(l),
        ) + added_view);
        i = i + 1;
    }
    assert(terms@.subrange(0, terms@.len() as int) =~= terms@);
    lines
}

} // verus!
