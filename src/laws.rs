//! Properties that hold of every resolved record, proved from the contracts
//! of the resolver and of the checks.
use vstd::prelude::*;

use crate::checks::lookups;
use crate::model::{
    mechanism_needs_lookup, mechanism_type, qualifier_text, term_text, Mechanism, Modifier, Term,
};
use crate::resolver::{
    answer_ok, record_ok, term_ok, token_body, token_kind, token_qualifier, ResolveSpfQuery, SpfAnswer,
    TermKind, MAX_NESTING,
};
use crate::text::{first_piece, join_with, lemma_join_split, lemma_split_nonempty, split_on};

verus! {

/// What a term was read as.
pub open spec fn term_kind_of(t: Term) -> TermKind {
    match t {
        Term::Directive(d) => match d.mechanism {
            Mechanism::All(_) => TermKind::All,
            Mechanism::A(_) => TermKind::A,
            Mechanism::Mx(_) => TermKind::Mx,
            Mechanism::Include(_) => TermKind::Include,
            Mechanism::Ip4(_) => TermKind::Ip4,
            Mechanism::Ip6(_) => TermKind::Ip6,
            _ => TermKind::Unknown,
        },
        Term::Modifier(Modifier::Redirect(_)) => TermKind::Redirect,
        _ => TermKind::Unknown,
    }
}

/// Whether evaluating the term costs a DNS lookup of its own.
pub open spec fn produces_lookup(t: Term) -> bool {
    match t {
        Term::Directive(d) => mechanism_needs_lookup(mechanism_type(d.mechanism)),
        Term::Modifier(Modifier::Redirect(_)) => true,
        _ => false,
    }
}

/// The version token followed by the text of each term, joined by spaces.
pub open spec fn record_text(version: Seq<char>, terms: Seq<Term>) -> Seq<char> {
    join_with(seq![version] + terms.map_values(|t: Term| term_text(t)), ' ')
}

proof fn lemma_token_parts(tok: Seq<char>)
    ensures
        qualifier_text(token_qualifier(tok)) + token_body(tok) == tok,
{
    if token_qualifier(tok) is Some {
        assert(seq![tok[0]] + tok.drop_first() =~= tok);
    } else {
        assert(Seq::<char>::empty() + tok =~= tok);
    }
}

/// A resolved term stands for its token, and is of the token's kind unless an
/// `include:` or `redirect=` target published no record.
proof fn lemma_term_from_token(t: Term, tok: Seq<char>, domain: Seq<char>, depth: nat)
    requires
        term_ok(t, tok, domain, depth),
    ensures
        term_text(t) == tok,
        term_kind_of(t) == token_kind(tok) || (t is Unknown && (token_kind(tok)
            == TermKind::Include || token_kind(tok) == TermKind::Redirect)),
{
    lemma_token_parts(tok);
}

/// Joining the version and the text of every term with single spaces gives
/// back the record exactly.
pub proof fn terms_rebuild_record(a: SpfAnswer, query: ResolveSpfQuery)
    requires
        answer_ok(a, query),
    ensures
        record_text(a.version.version@, a.terms@) == a.raw_rdata@,
{
    let toks = split_on(a.raw_rdata@, ' ');
    lemma_split_nonempty(a.raw_rdata@, ' ');
    let parts = seq![a.version.version@] + a.terms@.map_values(|t: Term| term_text(t));
    assert forall|i: int| 0 <= i < a.terms@.len() implies term_text(#[trigger] a.terms@[i])
        == toks[i + 1] by {
        lemma_term_from_token(a.terms@[i], toks[i + 1], query.domain_name@, MAX_NESTING as nat);
    }
    assert(parts =~= toks);
    lemma_join_split(a.raw_rdata@, ' ');
}

/// Appending a term that costs a lookup to the top level raises the lookup
/// count by at least one.
pub proof fn lookups_grow_on_append(ts: Seq<Term>, t: Term)
    requires
        produces_lookup(t),
    ensures
        lookups(ts.push(t)) >= lookups(ts) + 1,
{
    let s = ts.push(t);
    assert(s.subrange(0, s.len() - 1) =~= ts);
    assert(s[s.len() - 1] == t);
}

/// Reading the text of each resolved term again with the classification rules
/// gives the term's own kind, except where an `include:` or `redirect=`
/// target published no record and the term was kept as unknown.
pub proof fn term_texts_reclassify(a: SpfAnswer, query: ResolveSpfQuery)
    requires
        answer_ok(a, query),
    ensures
        forall|i: int|
            0 <= i < a.terms@.len() ==> token_kind(term_text(#[trigger] a.terms@[i]))
                == term_kind_of(a.terms@[i]) || (a.terms@[i] is Unknown && (token_kind(
                term_text(a.terms@[i]),
            ) == TermKind::Include || token_kind(term_text(a.terms@[i])) == TermKind::Redirect)),
{
    let toks = split_on(a.raw_rdata@, ' ');
    assert forall|i: int| 0 <= i < a.terms@.len() implies token_kind(
        term_text(#[trigger] a.terms@[i]),
    ) == term_kind_of(a.terms@[i]) || (a.terms@[i] is Unknown && (token_kind(
        term_text(a.terms@[i]),
    ) == TermKind::Include || token_kind(term_text(a.terms@[i])) == TermKind::Redirect)) by {
        lemma_term_from_token(a.terms@[i], toks[i + 1], query.domain_name@, MAX_NESTING as nat);
    }
}

/// Every nested record of the tree has its first space-separated token as
/// its version.
pub open spec fn nested_versions_match(ts: Seq<Term>) -> bool
    decreases ts,
{
    if ts.len() == 0 {
        true
    } else {
        nested_versions_match(ts.subrange(0, ts.len() - 1)) && match ts[ts.len() - 1] {
            Term::Directive(d) => match d.mechanism {
                Mechanism::Include(m) => m.version.version@ == first_piece(m.raw_rdata@, ' ')
                    && nested_versions_match(m.terms@),
                _ => true,
            },
            Term::Modifier(Modifier::Redirect(m)) => m.version.version@ == first_piece(
                m.raw_rdata@,
                ' ',
            ) && nested_versions_match(m.terms@),
            _ => true,
        }
    }
}

proof fn lemma_nested_versions(ts: Seq<Term>, toks: Seq<Seq<char>>, domain: Seq<char>, depth: nat)
    requires
        forall|i: int| 0 <= i < ts.len() ==> term_ok(#[trigger] ts[i], toks[i + 1], domain, depth),
    ensures
        nested_versions_match(ts),
    decreases depth, ts.len(),
{
    if ts.len() > 0 {
        let n = ts.len() - 1;
        let pre = ts.subrange(0, n);
        assert forall|i: int| 0 <= i < pre.len() implies term_ok(
            #[trigger] pre[i],
            toks[i + 1],
            domain,
            depth,
        ) by {
            assert(pre[i] == ts[i]);
        }
        lemma_nested_versions(pre, toks, domain, depth);
        let t = ts[n];
        assert(term_ok(t, toks[n + 1], domain, depth));
        match t {
            Term::Directive(d) => match d.mechanism {
                Mechanism::Include(m) => {
                    lemma_nested_versions(
                        m.terms@,
                        split_on(m.raw_rdata@, ' '),
                        m.domain_spec@,
                        (depth - 1) as nat,
                    );
                },
                _ => {},
            },
            Term::Modifier(Modifier::Redirect(m)) => {
                lemma_nested_versions(
                    m.terms@,
                    split_on(m.raw_rdata@, ' '),
                    m.domain_spec@,
                    (depth - 1) as nat,
                );
            },
            _ => {},
        }
    }
}

/// The version of every record in a resolved tree, the top one and every
/// nested `include:` or `redirect=` record, is that record's first
/// space-separated token.
pub proof fn every_version_is_first_token(a: SpfAnswer, query: ResolveSpfQuery)
    requires
        answer_ok(a, query),
    ensures
        a.version.version@ == first_piece(a.raw_rdata@, ' '),
        nested_versions_match(a.terms@),
{
    lemma_nested_versions(
        a.terms@,
        split_on(a.raw_rdata@, ' '),
        query.domain_name@,
        MAX_NESTING as nat,
    );
}

/// Two term sequences have the same shape: the same texts, the same kinds
/// (unless one of the two is an `include:` or `redirect=` whose target had no
/// record), and, where both read the same nested record, the same version
/// and nested terms of the same shape.
pub open spec fn same_shape(a: Seq<Term>, b: Seq<Term>) -> bool
    decreases a,
{
    if a.len() != b.len() {
        false
    } else if a.len() == 0 {
        true
    } else {
        let x = a[a.len() - 1];
        let y = b[b.len() - 1];
        &&& same_shape(a.subrange(0, a.len() - 1), b.subrange(0, b.len() - 1))
        &&& term_text(x) == term_text(y)
        &&& (term_kind_of(x) == term_kind_of(y) || ((x is Unknown || y is Unknown) && (token_kind(
            term_text(x),
        ) == TermKind::Include || token_kind(term_text(x)) == TermKind::Redirect)))
        &&& match (x, y) {
            (Term::Directive(dx), Term::Directive(dy)) => match (dx.mechanism, dy.mechanism) {
                (Mechanism::Include(mx), Mechanism::Include(my)) => mx.raw_rdata@
                    == my.raw_rdata@ ==> mx.domain_spec@ == my.domain_spec@
                    && mx.version.version@ == my.version.version@ && same_shape(
                    mx.terms@,
                    my.terms@,
                ),
                _ => true,
            },
            (
                Term::Modifier(Modifier::Redirect(mx)),
                Term::Modifier(Modifier::Redirect(my)),
            ) => mx.raw_rdata@ == my.raw_rdata@ ==> mx.domain_spec@ == my.domain_spec@
                && mx.version.version@ == my.version.version@ && same_shape(mx.terms@, my.terms@),
            _ => true,
        }
    }
}

proof fn lemma_same_shape(
    a: Seq<Term>,
    b: Seq<Term>,
    toks: Seq<Seq<char>>,
    da: Seq<char>,
    db: Seq<char>,
    depth: nat,
)
    requires
        a.len() == b.len(),
        forall|i: int| 0 <= i < a.len() ==> term_ok(#[trigger] a[i], toks[i + 1], da, depth),
        forall|i: int| 0 <= i < b.len() ==> term_ok(#[trigger] b[i], toks[i + 1], db, depth),
    ensures
        same_shape(a, b),
    decreases depth, a.len(),
{
    if a.len() > 0 {
        let n = a.len() - 1;
        let pa = a.subrange(0, n);
        let pb = b.subrange(0, n);
        assert forall|i: int| 0 <= i < pa.len() implies term_ok(#[trigger] pa[i], toks[i + 1], da, depth) by {
            assert(pa[i] == a[i]);
        }
        assert forall|i: int| 0 <= i < pb.len() implies term_ok(#[trigger] pb[i], toks[i + 1], db, depth) by {
            assert(pb[i] == b[i]);
        }
        lemma_same_shape(pa, pb, toks, da, db, depth);
        let x = a[n];
        let y = b[n];
        assert(term_ok(x, toks[n + 1], da, depth));
        assert(term_ok(y, toks[n + 1], db, depth));
        lemma_term_from_token(x, toks[n + 1], da, depth);
        lemma_term_from_token(y, toks[n + 1], db, depth);
        match (x, y) {
            (Term::Directive(dx), Term::Directive(dy)) => match (dx.mechanism, dy.mechanism) {
                (Mechanism::Include(mx), Mechanism::Include(my)) => {
                    if mx.raw_rdata@ == my.raw_rdata@ {
                        let nt = split_on(mx.raw_rdata@, ' ');
                        assert(mx.terms@.len() + 1 == nt.len());
                        assert(my.terms@.len() + 1 == nt.len());
                        lemma_same_shape(
                            mx.terms@,
                            my.terms@,
                            nt,
                            mx.domain_spec@,
                            my.domain_spec@,
                            (depth - 1) as nat,
                        );
                    }
                },
                _ => {},
            },
            (Term::Modifier(Modifier::Redirect(mx)), Term::Modifier(Modifier::Redirect(my))) => {
                if mx.raw_rdata@ == my.raw_rdata@ {
                    let nt = split_on(mx.raw_rdata@, ' ');
                    lemma_same_shape(
                        mx.terms@,
                        my.terms@,
                        nt,
                        mx.domain_spec@,
                        my.domain_spec@,
                        (depth - 1) as nat,
                    );
                }
            },
            _ => {},
        }
    }
}

/// Resolving a record again from its own text gives a tree of the same shape
/// at every depth wherever the two runs read the same nested records.
pub proof fn reresolve_keeps_shape_at_every_depth(
    first: SpfAnswer,
    q1: ResolveSpfQuery,
    second: SpfAnswer,
    q2: ResolveSpfQuery,
)
    requires
        answer_ok(first, q1),
        q2.record matches Some(r) && r@ == first.raw_rdata@,
        answer_ok(second, q2),
    ensures
        second.raw_rdata@ == first.raw_rdata@,
        second.version.version@ == first.version.version@,
        same_shape(first.terms@, second.terms@),
{
    lemma_same_shape(
        first.terms@,
        second.terms@,
        split_on(first.raw_rdata@, ' '),
        q1.domain_name@,
        q2.domain_name@,
        MAX_NESTING as nat,
    );
}

} // verus!
