//! The term tree of an SPF record.
use vstd::prelude::*;

verus! {

/// The version token of a record (`v=spf1` for a valid one).
pub struct Version {
    pub version: String,
}

/// The qualifier in front of a mechanism; an absent qualifier means `Pass`.
#[derive(Clone, Copy, Debug, PartialEq, Eq, Structural)]
pub enum QualifierType {
    /// `+`
    Pass,
    /// `-`
    Fail,
    /// `~`
    SoftFail,
    /// `?`
    Neutral,
}

/// The character that writes a qualifier.
pub open spec fn qualifier_char(q: QualifierType) -> char {
    match q {
        QualifierType::Pass => '+',
        QualifierType::Fail => '-',
        QualifierType::SoftFail => '~',
        QualifierType::Neutral => '?',
    }
}

/// The qualifier that a character writes, if any.
pub open spec fn qualifier_of(c: char) -> Option<QualifierType> {
    if c == '+' {
        Some(QualifierType::Pass)
    } else if c == '-' {
        Some(QualifierType::Fail)
    } else if c == '~' {
        Some(QualifierType::SoftFail)
    } else if c == '?' {
        Some(QualifierType::Neutral)
    } else {
        None
    }
}

pub(crate) fn qualifier_of_char(c: char) -> (r: Option<QualifierType>)
    ensures
        r == qualifier_of(c),
        r matches Some(q) ==> qualifier_char(q) == c,
        r is None ==> forall|q: QualifierType| qualifier_char(q) != c,
{
    if c == '+' {
        Some(QualifierType::Pass)
    } else if c == '-' {
        Some(QualifierType::Fail)
    } else if c == '~' {
        Some(QualifierType::SoftFail)
    } else if c == '?' {
        Some(QualifierType::Neutral)
    } else {
        None
    }
}

/// The text of an optional qualifier: empty when absent.
pub open spec fn qualifier_text(q: Option<QualifierType>) -> Seq<char> {
    match q {
        Some(q) => seq![qualifier_char(q)],
        None => Seq::<char>::empty(),
    }
}

impl QualifierType {
    /// The qualifier that `s` writes, if it writes one.
    pub fn parse(s: &str) -> (r: Option<QualifierType>)
        ensures
            r matches Some(q) ==> s@ == seq![qualifier_char(q)],
            r is None ==> forall|q: QualifierType| s@ != seq![qualifier_char(q)],
    {
        let cs = crate::text::chars_of(s);
        if cs.len() != 1 {
            assert forall|q: QualifierType| s@ != seq![qualifier_char(q)] by {
                if s@ == seq![qualifier_char(q)] {
                    assert(s@.len() == 1);
                }
            }
            return None;
        }
        let r = qualifier_of_char(cs[0]);
        proof {
            assert(s@ =~= seq![s@[0]]);
        }
        r
    }

    pub fn as_str(&self) -> (r: &'static str)
        ensures
            r@ == seq![qualifier_char(*self)],
    {
        match self {
            QualifierType::Pass => {
                proof {
                    reveal_strlit("+");
                }
                "+"
            },
            QualifierType::Fail => {
                proof {
                    reveal_strlit("-");
                }
                "-"
            },
            QualifierType::SoftFail => {
                proof {
                    reveal_strlit("~");
                }
                "~"
            },
            QualifierType::Neutral => {
                proof {
                    reveal_strlit("?");
                }
                "?"
            },
        }
    }
}

impl core::str::FromStr for QualifierType {
    type Err = ();

    fn from_str(s: &str) -> Result<QualifierType, ()> {
        match QualifierType::parse(s) {
            Some(q) => Ok(q),
            None => Err(()),
        }
    }
}

/// The kinds of mechanism that SPF defines.
#[derive(Clone, Copy, Debug, PartialEq, Eq, Structural)]
pub enum MechanismType {
    All,
    Include,
    A,
    Mx,
    Ptr,
    Ip4,
    Ip6,
    Exists,
}

pub open spec fn mechanism_name(t: MechanismType) -> Seq<char> {
    match t {
        MechanismType::All => "all"@,
        MechanismType::Include => "include"@,
        MechanismType::A => "a"@,
        MechanismType::Mx => "mx"@,
        MechanismType::Ptr => "ptr"@,
        MechanismType::Ip4 => "ip4"@,
        MechanismType::Ip6 => "ip6"@,
        MechanismType::Exists => "exists"@,
    }
}

impl MechanismType {
    /// The mechanism that `s` names, if it names one.
    pub fn parse(s: &str) -> (r: Option<MechanismType>)
        ensures
            r matches Some(t) ==> s@ == mechanism_name(t),
            r is None ==> forall|t: MechanismType| s@ != mechanism_name(t),
    {
        let cs = crate::text::chars_of(s);
        assert(cs@.skip(0) =~= cs@);
        if crate::text::equals_at(&cs, 0, "all") {
            Some(MechanismType::All)
        } else if crate::text::equals_at(&cs, 0, "include") {
            Some(MechanismType::Include)
        } else if crate::text::equals_at(&cs, 0, "a") {
            Some(MechanismType::A)
        } else if crate::text::equals_at(&cs, 0, "mx") {
            Some(MechanismType::Mx)
        } else if crate::text::equals_at(&cs, 0, "ptr") {
            Some(MechanismType::Ptr)
        } else if crate::text::equals_at(&cs, 0, "ip4") {
            Some(MechanismType::Ip4)
        } else if crate::text::equals_at(&cs, 0, "ip6") {
            Some(MechanismType::Ip6)
        } else if crate::text::equals_at(&cs, 0, "exists") {
            Some(MechanismType::Exists)
        } else {
            None
        }
    }

    pub fn as_str(&self) -> (r: &'static str)
        ensures
            r@ == mechanism_name(*self),
    {
        match self {
            MechanismType::All => "all",
            MechanismType::Include => "include",
            MechanismType::A => "a",
            MechanismType::Mx => "mx",
            MechanismType::Ptr => "ptr",
            MechanismType::Ip4 => "ip4",
            MechanismType::Ip6 => "ip6",
            MechanismType::Exists => "exists",
        }
    }
}

impl core::str::FromStr for MechanismType {
    type Err = ();

    fn from_str(s: &str) -> Result<MechanismType, ()> {
        match MechanismType::parse(s) {
            Some(t) => Ok(t),
            None => Err(()),
        }
    }
}

/// An address returned by an address lookup, as its number in network order.
#[derive(Clone, Copy, Debug, PartialEq, Eq, Structural)]
pub enum IpAddress {
    V4(u32),
    V6(u128),
}

/// `all`
pub struct AllMechanism {
    pub raw_value: String,
}

/// `a`, `a:<domain>`, with an optional `/<prefix>`; holds the addresses found.
pub struct AMechanism {
    pub raw_value: String,
    pub ip_addresses: Vec<IpAddress>,
    pub subnet_mask: Option<u8>,
}

/// `include:<domain>`, with the record that the domain publishes.
pub struct IncludeMechanism {
    pub raw_value: String,
    /// The version token of the included record.
    pub version: Version,
    /// The domain whose record is included.
    pub domain_spec: String,
    /// The terms of the included record.
    pub terms: Vec<Term>,
    /// The included record as it was read.
    pub raw_rdata: String,
}

/// `mx`, `mx:<domain>`, with an optional `/<prefix>`; holds the exchanges found.
pub struct MxMechanism {
    pub raw_value: String,
    pub hosts: Vec<String>,
    pub subnet_mask: Option<u8>,
}

/// `ptr`
pub struct PtrMechanism {
    pub raw_value: String,
}

/// `ip4:<address>` with an optional `/<prefix>` of at most 32.
pub struct Ip4Mechanism {
    pub raw_value: String,
    /// The address as written.
    pub ip_address: String,
    pub subnet_mask: Option<u8>,
}

/// `ip6:<address>` with an optional `/<prefix>` of at most 128.
pub struct Ip6Mechanism {
    pub raw_value: String,
    /// The address as written.
    pub ip_address: String,
    pub subnet_mask: Option<u8>,
}

/// `exists:<domain>`
pub struct ExistsMechanism {
    pub raw_value: String,
}

pub enum Mechanism {
    All(AllMechanism),
    A(AMechanism),
    Include(IncludeMechanism),
    Mx(MxMechanism),
    Ptr(PtrMechanism),
    Ip4(Ip4Mechanism),
    Ip6(Ip6Mechanism),
    Exists(ExistsMechanism),
}

/// A qualifier and a mechanism, e.g. `-all` or `include:example.com`.
pub struct Directive {
    pub qualifier: Option<QualifierType>,
    pub mechanism: Mechanism,
}

/// `exp=<domain>`
pub struct ExpModifier {
    pub raw_value: String,
}

/// `redirect=<domain>`, with the record that the domain publishes.
pub struct RedirectModifier {
    pub raw_value: String,
    pub version: Version,
    pub domain_spec: String,
    pub terms: Vec<Term>,
    pub raw_rdata: String,
}

pub enum Modifier {
    Exp(ExpModifier),
    Redirect(RedirectModifier),
}

/// A token that no rule recognised, or an `include:` whose target publishes
/// no SPF record (then `note` says so).
pub struct UnknownTerm {
    pub raw_rdata: String,
    pub note: Option<String>,
}

pub enum Term {
    Directive(Directive),
    Modifier(Modifier),
    Unknown(UnknownTerm),
}

pub open spec fn mechanism_type(m: Mechanism) -> MechanismType {
    match m {
        Mechanism::All(_) => MechanismType::All,
        Mechanism::A(_) => MechanismType::A,
        Mechanism::Include(_) => MechanismType::Include,
        Mechanism::Mx(_) => MechanismType::Mx,
        Mechanism::Ptr(_) => MechanismType::Ptr,
        Mechanism::Ip4(_) => MechanismType::Ip4,
        Mechanism::Ip6(_) => MechanismType::Ip6,
        Mechanism::Exists(_) => MechanismType::Exists,
    }
}

/// The text of the mechanism as it stood in the record, without qualifier.
pub open spec fn mechanism_raw(m: Mechanism) -> Seq<char> {
    match m {
        Mechanism::All(x) => x.raw_value@,
        Mechanism::A(x) => x.raw_value@,
        Mechanism::Include(x) => x.raw_value@,
        Mechanism::Mx(x) => x.raw_value@,
        Mechanism::Ptr(x) => x.raw_value@,
        Mechanism::Ip4(x) => x.raw_value@,
        Mechanism::Ip6(x) => x.raw_value@,
        Mechanism::Exists(x) => x.raw_value@,
    }
}

/// The token that a term stands for, qualifier included.
pub open spec fn term_text(t: Term) -> Seq<char> {
    match t {
        Term::Directive(d) => qualifier_text(d.qualifier) + mechanism_raw(d.mechanism),
        Term::Modifier(Modifier::Exp(e)) => e.raw_value@,
        Term::Modifier(Modifier::Redirect(r)) => r.raw_value@,
        Term::Unknown(u) => u.raw_rdata@,
    }
}

pub open spec fn mechanism_needs_lookup(t: MechanismType) -> bool {
    match t {
        MechanismType::Include | MechanismType::A | MechanismType::Mx | MechanismType::Ptr
        | MechanismType::Exists => true,
        _ => false,
    }
}

impl Mechanism {
    pub fn mechanism_type(&self) -> (r: MechanismType)
        ensures
            r == mechanism_type(*self),
    {
        match self {
            Mechanism::All(_) => MechanismType::All,
            Mechanism::A(_) => MechanismType::A,
            Mechanism::Include(_) => MechanismType::Include,
            Mechanism::Mx(_) => MechanismType::Mx,
            Mechanism::Ptr(_) => MechanismType::Ptr,
            Mechanism::Ip4(_) => MechanismType::Ip4,
            Mechanism::Ip6(_) => MechanismType::Ip6,
            Mechanism::Exists(_) => MechanismType::Exists,
        }
    }

    /// Whether evaluating the mechanism costs a DNS lookup.
    pub fn need_lookup(&self) -> (r: bool)
        ensures
            r == mechanism_needs_lookup(mechanism_type(*self)),
    {
        match self {
            Mechanism::Include(_) | Mechanism::A(_) | Mechanism::Mx(_) | Mechanism::Ptr(_)
            | Mechanism::Exists(_) => true,
            _ => false,
        }
    }
}

impl Modifier {
    /// Whether evaluating the modifier costs a DNS lookup.
    pub fn need_lookup(&self) -> (r: bool)
        ensures
            r == (*self is Redirect),
    {
        match self {
            Modifier::Redirect(_) => true,
            Modifier::Exp(_) => false,
        }
    }
}

} // verus!
