//! The validator: independent checks over a resolved record and its text.
use vstd::prelude::*;
use vstd::string::StringSliceAdditionalSpecFns;

use crate::error::{LabelSpan, Severity, SyntaxError};
use crate::model::{Mechanism, Modifier, Term};
use crate::text::{
    char_width, chars_of, concat2, concat3, decimal_string, decimal_text, equals_at, first_piece,
    lemma_split_nonempty, lemma_utf8_len_concat, split_chars, starts_with, string_from, utf8_len,
    width_of,
};

verus! {

/// Records longer than this many bytes may be ignored by SPF clients.
pub const MAX_TXT_LENGTH: usize = 450;

/// How many bytes of each end of an overlong record its excerpt keeps.
pub const EXCERPT_BYTES: usize = 75;

/// The most DNS lookups that evaluating a record may cost.
pub const MAX_LOOKUP_COUNT: usize = 10;

/// How many leading characters of `s` fit in `budget` bytes.
pub open spec fn fit_front(s: Seq<char>, budget: nat) -> nat
    decreases s.len(),
{
    if s.len() == 0 || char_width(s[0]) > budget {
        0
    } else {
        1 + fit_front(s.drop_first(), (budget - char_width(s[0])) as nat)
    }
}

/// How many trailing characters of `s` fit in `budget` bytes.
pub open spec fn fit_back(s: Seq<char>, budget: nat) -> nat
    decreases s.len(),
{
    if s.len() == 0 || char_width(s.last()) > budget {
        0
    } else {
        1 + fit_back(s.drop_last(), (budget - char_width(s.last())) as nat)
    }
}

/// The head and tail of an overlong record, joined by `...`.
pub open spec fn excerpt(s: Seq<char>) -> Seq<char> {
    s.take(fit_front(s, EXCERPT_BYTES as nat) as int) + "..."@ + s.skip(
        s.len() - fit_back(s, EXCERPT_BYTES as nat),
    )
}

/// The first index at or after `i` where `needle` occurs in `hay`, or -1.
pub open spec fn find_bytes_from(hay: Seq<u8>, needle: Seq<u8>, i: int) -> int
    decreases hay.len() + 1 - i,
{
    if i < 0 || i + needle.len() > hay.len() {
        -1
    } else if hay.subrange(i, i + needle.len()) == needle {
        i
    } else {
        find_bytes_from(hay, needle, i + 1)
    }
}

pub open spec fn find_bytes(hay: Seq<u8>, needle: Seq<u8>) -> int {
    find_bytes_from(hay, needle, 0)
}

/// The index of the first byte `b` in `bs`, or the length when there is none.
pub open spec fn byte_index(bs: Seq<u8>, b: u8) -> int
    decreases bs.len(),
{
    if bs.len() == 0 || bs[0] == b {
        0
    } else {
        1 + byte_index(bs.drop_first(), b)
    }
}

/// The offsets of the bytes that start a non-ASCII character.
pub open spec fn lead_positions(bs: Seq<u8>) -> Seq<int>
    decreases bs.len(),
{
    if bs.len() == 0 {
        Seq::<int>::empty()
    } else if bs.last() >= 0xC0 {
        lead_positions(bs.drop_last()).push(bs.len() - 1)
    } else {
        lead_positions(bs.drop_last())
    }
}

pub open spec fn non_ascii_chars(s: Seq<char>) -> Seq<char>
    decreases s.len(),
{
    if s.len() == 0 {
        Seq::<char>::empty()
    } else if (s.last() as u32) >= 0x80 {
        non_ascii_chars(s.drop_last()).push(s.last())
    } else {
        non_ascii_chars(s.drop_last())
    }
}

/// The tokens of the `Unknown` terms among `ts`, in order.
pub open spec fn unknown_raws(ts: Seq<Term>) -> Seq<Seq<char>>
    decreases ts.len(),
{
    if ts.len() == 0 {
        Seq::<Seq<char>>::empty()
    } else {
        match ts.last() {
            Term::Unknown(u) => unknown_raws(ts.drop_last()).push(u.raw_rdata@),
            _ => unknown_raws(ts.drop_last()),
        }
    }
}

/// The pieces separated by `, `.
pub open spec fn comma_list(parts: Seq<Seq<char>>) -> Seq<char>
    decreases parts.len(),
{
    if parts.len() == 0 {
        Seq::<char>::empty()
    } else if parts.len() == 1 {
        parts[0]
    } else {
        comma_list(parts.drop_last()) + ", "@ + parts.last()
    }
}

pub open spec fn is_all_directive(t: Term) -> bool {
    t matches Term::Directive(d) && d.mechanism is All
}

pub open spec fn is_redirect(t: Term) -> bool {
    t matches Term::Modifier(m) && m is Redirect
}

pub open spec fn is_directive(t: Term) -> bool {
    t is Directive
}

/// Whether a directive follows the first `all` directive.
pub open spec fn directive_after_all(ts: Seq<Term>) -> bool {
    exists|i: int, k: int|
        0 <= i < k < ts.len() && is_all_directive(#[trigger] ts[i]) && (forall|j: int|
            0 <= j < i ==> !is_all_directive(#[trigger] ts[j])) && is_directive(#[trigger] ts[k])
}

/// Whether the first `redirect=` is not the last term.
pub open spec fn redirect_not_last(ts: Seq<Term>) -> bool {
    exists|i: int|
        0 <= i < ts.len() - 1 && is_redirect(#[trigger] ts[i]) && forall|j: int|
            0 <= j < i ==> !is_redirect(#[trigger] ts[j])
}

/// The DNS lookups that evaluating `ts` costs: one for each `a`, `mx`, `ptr`,
/// `exists`, `include` and `redirect`, plus those inside each `include`.
pub open spec fn lookups(ts: Seq<Term>) -> nat
    decreases ts,
{
    if ts.len() == 0 {
        0
    } else {
        lookups(ts.subrange(0, ts.len() - 1)) + match ts[ts.len() - 1] {
            Term::Directive(d) => match d.mechanism {
                Mechanism::Include(i) => 1 + lookups(i.terms@),
                Mechanism::A(_) | Mechanism::Mx(_) | Mechanism::Ptr(_) | Mechanism::Exists(_) => 1,
                _ => 0,
            },
            Term::Modifier(Modifier::Redirect(_)) => 1,
            _ => 0,
        }
    }
}

pub open spec fn help_redirect() -> Seq<char> {
    "For clarity, any redirect modifier should appear as the very last term in a record."@
}

proof fn lemma_encode_nonempty(x: Seq<char>)
    requires
        x.len() > 0,
    ensures
        vstd::utf8::encode_utf8(x).len() >= 1,
{
    let c = x[0] as u32;
    vstd::utf8::char_is_scalar(x[0]);
    assert(vstd::utf8::encode_utf8(x) == vstd::utf8::encode_scalar(c) + vstd::utf8::encode_utf8(
        x.drop_first(),
    ));
    assert(vstd::utf8::encode_scalar(c).len() >= 1);
}

/// The first place where `needle` occurs in `hay`.
fn find_bytes_exec(hay: &[u8], needle: &[u8]) -> (r: Option<usize>)
    ensures
        match r {
            Some(i) => i as int == find_bytes(hay@, needle@) && i + needle@.len() <= hay@.len(),
            None => find_bytes(hay@, needle@) == -1,
        },
{
    if needle.len() > hay.len() {
        return None;
    }
    let mut i: usize = 0;
    while i <= hay.len() - needle.len()
        invariant
            needle@.len() <= hay@.len(),
            i <= hay@.len(),
            find_bytes(hay@, needle@) == find_bytes_from(hay@, needle@, i as int),
        decreases hay.len() - i,
    {
        let mut j: usize = 0;
        let mut same = true;
        while j < needle.len()
            invariant
                i + needle.len() <= hay.len(),
                j <= needle@.len(),
                same == (forall|k: int| 0 <= k < j ==> hay@[i + k] == needle@[k]),
            decreases needle.len() - j,
        {
            if hay[i + j] != needle[j] {
                same = false;
            }
            j = j + 1;
        }
        if same {
            assert(hay@.subrange(i as int, i + needle@.len()) =~= needle@);
            return Some(i);
        } else {
            assert(exists|k: int|
                0 <= k < needle@.len() && hay@[i + k] != needle@[k]);
            assert(hay@.subrange(i as int, i + needle@.len()) != needle@);
        }
        i = i + 1;
    }
    None
}

/// An overlong record's excerpt and its length in bytes.
fn make_excerpt(rdata: &str) -> (r: (String, usize))
    ensures
        r.0@ == excerpt(rdata@),
        r.1 == utf8_len(r.0@),
{
    let cs = chars_of(rdata);
    let ghost s = cs@;
    let mut i: usize = 0;
    let mut used: usize = 0;
    assert(s.skip(0) =~= s);
    assert(s.take(0) =~= Seq::<char>::empty());
    while i < cs.len() && used + width_of(cs[i]) <= EXCERPT_BYTES
        invariant
            s == cs@,
            i <= s.len(),
            used <= EXCERPT_BYTES,
            used == utf8_len(s.take(i as int)),
            fit_front(s, EXCERPT_BYTES as nat) == i + fit_front(
                s.skip(i as int),
                (EXCERPT_BYTES - used) as nat,
            ),
        decreases cs.len() - i,
    {
        proof {
            assert(s.skip(i as int).drop_first() =~= s.skip(i + 1));
            assert(s.take(i + 1).drop_last() =~= s.take(i as int));
        }
        used = used + width_of(cs[i]);
        i = i + 1;
    }
    let head_used = used;
    let head_len = i;
    let mut j: usize = cs.len();
    let mut tail_used: usize = 0;
    assert(s.take(s.len() as int) =~= s);
    assert(s.skip(s.len() as int) =~= Seq::<char>::empty());
    while j > 0 && tail_used + width_of(cs[j - 1]) <= EXCERPT_BYTES
        invariant
            s == cs@,
            j <= s.len(),
            tail_used <= EXCERPT_BYTES,
            tail_used == utf8_len(s.skip(j as int)),
            fit_back(s, EXCERPT_BYTES as nat) == (s.len() - j) + fit_back(
                s.take(j as int),
                (EXCERPT_BYTES - tail_used) as nat,
            ),
        decreases j,
    {
        proof {
            assert(s.take(j as int).drop_last() =~= s.take(j - 1));
            assert(s.skip(j - 1) =~= seq![s[j - 1]] + s.skip(j as int));
            lemma_utf8_len_concat(seq![s[j - 1]], s.skip(j as int));
            assert(seq![s[j - 1]].drop_last() =~= Seq::<char>::empty());
            assert(utf8_len(Seq::<char>::empty()) == 0);
            assert(seq![s[j - 1]].last() == s[j - 1]);
            assert(utf8_len(seq![s[j - 1]]) == char_width(s[j - 1]));
        }
        tail_used = tail_used + width_of(cs[j - 1]);
        j = j - 1;
    }
    proof {
        if i < s.len() {
            assert(s.skip(i as int)[0] == s[i as int]);
        }
        if j > 0 {
            assert(s.take(j as int).last() == s[j - 1]);
        }
        assert(s.skip(s.len() as int) =~= Seq::<char>::empty());
        assert(s.take(0) =~= Seq::<char>::empty());
    }
    let head = string_from(&cs, 0, head_len);
    let tail = string_from(&cs, j, cs.len());
    let out = concat3(head.as_str(), "...", tail.as_str());
    proof {
        reveal_strlit("...");
        assert(s.subrange(0, head_len as int) =~= s.take(head_len as int));
        assert(s.subrange(j as int, s.len() as int) =~= s.skip(j as int));
        lemma_utf8_len_concat(head@, "..."@);
        lemma_utf8_len_concat(head@ + "..."@, tail@);
        let d = "..."@;
        assert(d =~= seq!['.', '.', '.']);
        assert(d.drop_last().drop_last().drop_last() =~= Seq::<char>::empty());
        assert(utf8_len(Seq::<char>::empty()) == 0);
        assert(utf8_len(d.drop_last().drop_last()) == 1);
        assert(utf8_len(d.drop_last()) == 2);
        assert(utf8_len(d) == 3);
    }
    (out, head_used + 3 + tail_used)
}

/// The diagnostic that `check_max_txt_length` reports.
pub open spec fn length_diagnostic(e: SyntaxError, raw: Seq<char>) -> bool {
    &&& e.message@ == "Max length exceeded"@
    &&& e.severity is None
    &&& e.src matches Some(src) && src@ == excerpt(raw)
    &&& e.src_labels matches Some(ls) && ls@.len() == 1 && ls@[0].offset == 0
        && ls@[0].len == utf8_len(excerpt(raw)) && ls@[0].label@ == "Current length of "@
        + decimal_text(vstd::utf8::encode_utf8(raw).len()) + " exceeds maximum allowed length of 450."@
    &&& e.help matches Some(h) && h@ == "Reduce the length of the SPF record."@
}

/// Records that are too long to fit in a single UDP packet may be ignored by
/// SPF clients.
pub fn check_max_txt_length(rdata: &str) -> (r: Result<(), Box<SyntaxError>>)
    ensures
        r is Ok <==> rdata.spec_bytes().len() <= MAX_TXT_LENGTH,
        r matches Err(e) ==> length_diagnostic(*e, rdata@),
{
    let n = rdata.as_bytes().len();
    if n <= MAX_TXT_LENGTH {
        return Ok(());
    }
    let (src, src_len) = make_excerpt(rdata);
    let count = decimal_string(n);
    let note = concat3(
        "Current length of ",
        count.as_str(),
        " exceeds maximum allowed length of 450.",
    );
    let mut labels: Vec<LabelSpan> = Vec::new();
    labels.push(LabelSpan { offset: 0, len: src_len, label: note });
    Err(
        Box::new(
            SyntaxError {
                message: String::from_str("Max length exceeded"),
                severity: None,
                src: Some(src),
                src_labels: Some(labels),
                help: Some(String::from_str("Reduce the length of the SPF record.")),
                code: None,
                code_url: None,
            },
        ),
    )
}

/// The diagnostic that `check_is_ascii` reports.
pub open spec fn ascii_diagnostic(e: SyntaxError, raw: Seq<char>) -> bool {
    &&& e.message@ == "Invalid character in SPF record"@
    &&& e.severity is None
    &&& e.src matches Some(src) && src@ == raw
    &&& e.src_labels matches Some(ls) && ls@.len() == lead_positions(
        vstd::utf8::encode_utf8(raw),
    ).len() && forall|k: int|
        0 <= k < ls@.len() ==> (#[trigger] ls@[k]).offset == lead_positions(
            vstd::utf8::encode_utf8(raw),
        )[k] && ls@[k].len == 0 && ls@[k].label@ == "Non-ASCII character not allowed."@
    &&& e.help matches Some(h) && h@ == "Remove "@ + non_ascii_chars(raw)
        + " from the SPF record."@
}

/// The character content of the record must be US-ASCII.
pub fn check_is_ascii(rdata: &str) -> (r: Result<(), Box<SyntaxError>>)
    ensures
        r is Ok <==> vstd::string::is_ascii(rdata),
        r matches Err(e) ==> ascii_diagnostic(*e, rdata@),
{
    if rdata.is_ascii() {
        return Ok(());
    }
    let bytes = rdata.as_bytes();
    let mut labels: Vec<LabelSpan> = Vec::new();
    let mut i: usize = 0;
    while i < bytes.len()
        invariant
            i <= bytes@.len(),
            bytes@ == rdata.spec_bytes(),
            labels@.len() == lead_positions(bytes@.take(i as int)).len(),
            forall|k: int|
                0 <= k < labels@.len() ==> (#[trigger] labels@[k]).offset == lead_positions(
                    bytes@.take(i as int),
                )[k] && labels@[k].len == 0 && labels@[k].label@
                    == "Non-ASCII character not allowed."@,
        decreases bytes.len() - i,
    {
        proof {
            assert(bytes@.take(i + 1).drop_last() =~= bytes@.take(i as int));
        }
        if bytes[i] >= 0xC0 {
            labels.push(
                LabelSpan {
                    offset: i,
                    len: 0,
                    label: String::from_str("Non-ASCII character not allowed."),
                },
            );
        }
        i = i + 1;
    }
    assert(bytes@.take(bytes@.len() as int) =~= bytes@);
    let cs = chars_of(rdata);
    let mut odd = String::new();
    let mut k: usize = 0;
    while k < cs.len()
        invariant
            k <= cs@.len(),
            cs@ == rdata@,
            odd@ == non_ascii_chars(cs@.take(k as int)),
        decreases cs.len() - k,
    {
        proof {
            assert(cs@.take(k + 1).drop_last() =~= cs@.take(k as int));
        }
        if (cs[k] as u32) >= 0x80 {
            crate::text::push_char(&mut odd, cs[k]);
        }
        k = k + 1;
    }
    assert(cs@.take(cs@.len() as int) =~= cs@);
    let help = concat3("Remove ", odd.as_str(), " from the SPF record.");
    Err(
        Box::new(
            SyntaxError {
                message: String::from_str("Invalid character in SPF record"),
                severity: None,
                src: Some(String::from_str(rdata)),
                src_labels: Some(labels),
                help: Some(help),
                code: None,
                code_url: None,
            },
        ),
    )
}

/// The index of the first space in `bytes`, or the length.
fn space_index(bytes: &[u8]) -> (r: usize)
    ensures
        r == byte_index(bytes@, 32),
        r <= bytes@.len(),
{
    let mut i: usize = 0;
    assert(bytes@.skip(0) =~= bytes@);
    while i < bytes.len() && bytes[i] != 32
        invariant
            i <= bytes@.len(),
            byte_index(bytes@, 32) == i + byte_index(bytes@.skip(i as int), 32),
        decreases bytes.len() - i,
    {
        assert(bytes@.skip(i as int).drop_first() =~= bytes@.skip(i + 1));
        i = i + 1;
    }
    proof {
        if i < bytes@.len() {
            assert(bytes@.skip(i as int)[0] == bytes@[i as int]);
        }
    }
    i
}

/// The diagnostic that `check_version` reports.
pub open spec fn version_diagnostic(e: SyntaxError, raw: Seq<char>) -> bool {
    let version = first_piece(raw, ' ');
    let label = if !starts_with(version, "v="@) {
        "Version is missing"@
    } else {
        "'"@ + version + "' is not a valid version."@
    };
    &&& e.message@ == if !starts_with(version, "v="@) {
        "Version must be defined"@
    } else {
        "Invalid SPF version"@
    }
    &&& e.severity is None
    &&& e.src matches Some(src) && src@ == raw
    &&& e.src_labels matches Some(ls) && ls@.len() == 1 && ls@[0].offset == 0
        && ls@[0].len == byte_index(vstd::utf8::encode_utf8(raw), 32) && ls@[0].label@ == label
    &&& e.help matches Some(h) && h@ == "Add 'v=spf1' to the beginning of the SPF record."@
}

/// The first token must be `v=spf1`.
pub fn check_version(rdata: &str) -> (r: Result<(), Box<SyntaxError>>)
    ensures
        r is Ok <==> first_piece(rdata@, ' ') == "v=spf1"@,
        r matches Err(e) ==> version_diagnostic(*e, rdata@),
{
    let parts = split_chars(rdata, ' ');
    proof {
        lemma_split_nonempty(rdata@, ' ');
    }
    let vcs = chars_of(parts[0].as_str());
    assert(vcs@.skip(0) =~= vcs@);
    if equals_at(&vcs, 0, "v=spf1") {
        return Ok(());
    }
    let end = space_index(rdata.as_bytes());
    let (message, label) = if !crate::text::has_prefix_at(&vcs, 0, "v=") {
        (String::from_str("Version must be defined"), String::from_str("Version is missing"))
    } else {
        (
            String::from_str("Invalid SPF version"),
            concat3("'", parts[0].as_str(), "' is not a valid version."),
        )
    };
    let mut labels: Vec<LabelSpan> = Vec::new();
    labels.push(LabelSpan { offset: 0, len: end, label });
    Err(
        Box::new(
            SyntaxError {
                message,
                severity: None,
                src: Some(String::from_str(rdata)),
                src_labels: Some(labels),
                help: Some(String::from_str("Add 'v=spf1' to the beginning of the SPF record.")),
                code: None,
                code_url: None,
            },
        ),
    )
}

/// The tokens of the unknown terms among `terms`.
fn unknown_tokens(terms: &[Term]) -> (r: Vec<String>)
    ensures
        r@.len() == unknown_raws(terms@).len(),
        forall|k: int| 0 <= k < r@.len() ==> #[trigger] r@[k]@ == unknown_raws(terms@)[k],
{
    let mut out: Vec<String> = Vec::new();
    let mut i: usize = 0;
    while i < terms.len()
        invariant
            i <= terms@.len(),
            out@.len() == unknown_raws(terms@.take(i as int)).len(),
            forall|k: int|
                0 <= k < out@.len() ==> #[trigger] out@[k]@ == unknown_raws(
                    terms@.take(i as int),
                )[k],
        decreases terms.len() - i,
    {
        proof {
            assert(terms@.take(i + 1).drop_last() =~= terms@.take(i as int));
        }
        match &terms[i] {
            Term::Unknown(u) => {
                out.push(u.raw_rdata.clone());
            },
            _ => {},
        }
        i = i + 1;
    }
    assert(terms@.take(terms@.len() as int) =~= terms@);
    out
}

/// The label of one unknown token within the record.
pub open spec fn unknown_label_ok(l: LabelSpan, hay: Seq<u8>, tok: Seq<char>) -> bool {
    let found = find_bytes(hay, vstd::utf8::encode_utf8(" "@ + tok));
    &&& l.offset == if found >= 0 {
        found + 1
    } else {
        0
    }
    &&& l.len == vstd::utf8::encode_utf8(tok).len()
    &&& l.label@ == tok + " is an unknown term"@
}

/// The diagnostic that `check_has_unknown_term` reports.
pub open spec fn unknown_term_diagnostic(e: SyntaxError, terms: Seq<Term>, raw: Seq<char>) -> bool {
    let us = unknown_raws(terms);
    &&& e.message@ == "SPF record contains one or more unknown terms"@
    &&& e.severity == Some(Severity::Warning)
    &&& e.src matches Some(src) && src@ == raw
    &&& e.src_labels matches Some(ls) && ls@.len() == us.len() && forall|k: int|
        0 <= k < ls@.len() ==> unknown_label_ok(
            #[trigger] ls@[k],
            vstd::utf8::encode_utf8(raw),
            us[k],
        )
    &&& e.help matches Some(h) && h@ == if us.len() == 1 {
        "Remove the unknown term '"@ + us[0] + "'"@
    } else {
        "Remove the unknown terms '"@ + comma_list(us) + "'"@
    }
}

/// Warns about every top-level term that no rule recognised.
pub fn check_has_unknown_term(terms: &[Term], raw_rdata: &str) -> (r: Result<
    bool,
    Box<SyntaxError>,
>)
    ensures
        r is Ok <==> unknown_raws(terms@).len() == 0,
        r matches Ok(b) ==> b,
        r matches Err(e) ==> unknown_term_diagnostic(*e, terms@, raw_rdata@),
{
    let us = unknown_tokens(terms);
    if us.len() == 0 {
        return Ok(true);
    }
    let hay = raw_rdata.as_bytes();
    let mut labels: Vec<LabelSpan> = Vec::new();
    let mut listed = String::new();
    let mut i: usize = 0;
    while i < us.len()
        invariant
            i <= us@.len(),
            hay@ == raw_rdata.spec_bytes(),
            labels@.len() == i,
            forall|k: int|
                0 <= k < i ==> unknown_label_ok(#[trigger] labels@[k], hay@, us@[k]@),
            i > 0 ==> listed@ == comma_list(us@.take(i as int).map_values(|s: String| s@)),
        decreases us.len() - i,
    {
        let tok = us[i].as_str();
        let needle = concat2(" ", tok);
        let tok_len = tok.as_bytes().len();
        let label = concat2(tok, " is an unknown term");
        let nb = needle.as_str().as_bytes();
        let hay_len = hay.len();
        let (offset, len) = match find_bytes_exec(hay, nb) {
            Some(p) => {
                proof {
                    reveal_strlit(" ");
                    lemma_encode_nonempty(needle@);
                    assert(nb@.len() >= 1);
                    assert(p + 1 <= hay_len);
                }
                (p + 1, tok_len)
            },
            None => (0, tok_len),
        };
        labels.push(LabelSpan { offset, len, label });
        proof {
            let ghost m = us@.take(i + 1).map_values(|s: String| s@);
            assert(m.drop_last() =~= us@.take(i as int).map_values(|s: String| s@));
        }
        if i == 0 {
            listed = us[0].clone();
            assert(us@.take(1).map_values(|s: String| s@) =~= seq![us@[0]@]);
        } else {
            listed = concat3(listed.as_str(), ", ", tok);
        }
        i = i + 1;
    }
    let ghost uv = us@.map_values(|s: String| s@);
    proof {
        assert(us@.take(us@.len() as int) =~= us@);
        assert(uv =~= unknown_raws(terms@));
    }
    let help = if us.len() == 1 {
        concat3("Remove the unknown term '", us[0].as_str(), "'")
    } else {
        concat3("Remove the unknown terms '", listed.as_str(), "'")
    };
    Err(
        Box::new(
            SyntaxError {
                message: String::from_str("SPF record contains one or more unknown terms"),
                severity: Some(Severity::Warning),
                src: Some(String::from_str(raw_rdata)),
                src_labels: Some(labels),
                help: Some(help),
                code: None,
                code_url: None,
            },
        ),
    )
}

fn is_all_term(t: &Term) -> (r: bool)
    ensures
        r == is_all_directive(*t),
{
    match t {
        Term::Directive(d) => match &d.mechanism {
            Mechanism::All(_) => true,
            _ => false,
        },
        _ => false,
    }
}

fn is_redirect_term(t: &Term) -> (r: bool)
    ensures
        r == is_redirect(*t),
{
    match t {
        Term::Modifier(Modifier::Redirect(_)) => true,
        _ => false,
    }
}

/// The index of the first `all` directive, or the length.
fn first_all(terms: &[Term]) -> (r: usize)
    ensures
        r <= terms@.len(),
        r < terms@.len() ==> is_all_directive(terms@[r as int]),
        forall|j: int| 0 <= j < r ==> !is_all_directive(#[trigger] terms@[j]),
{
    let mut p: usize = 0;
    while p < terms.len() && !is_all_term(&terms[p])
        invariant
            p <= terms@.len(),
            forall|j: int| 0 <= j < p ==> !is_all_directive(#[trigger] terms@[j]),
        decreases terms.len() - p,
    {
        p = p + 1;
    }
    p
}

/// The index of the first `redirect=`, or the length.
fn first_redirect(terms: &[Term]) -> (r: usize)
    ensures
        r <= terms@.len(),
        r < terms@.len() ==> is_redirect(terms@[r as int]),
        forall|j: int| 0 <= j < r ==> !is_redirect(#[trigger] terms@[j]),
{
    let mut p: usize = 0;
    while p < terms.len() && !is_redirect_term(&terms[p])
        invariant
            p <= terms@.len(),
            forall|j: int| 0 <= j < p ==> !is_redirect(#[trigger] terms@[j]),
        decreases terms.len() - p,
    {
        p = p + 1;
    }
    p
}

/// The span that a label over the text after `needle` (or over everything) covers.
pub open spec fn span_after(hay: Seq<u8>, needle: Seq<char>) -> (int, int) {
    let found = find_bytes(hay, vstd::utf8::encode_utf8(needle));
    if found >= 0 {
        (found + vstd::utf8::encode_utf8(needle).len(), hay.len() as int)
    } else {
        (0, hay.len() as int)
    }
}

/// The diagnostic that `check_all_is_rightmost` reports.
pub open spec fn all_rightmost_diagnostic(e: SyntaxError, terms: Seq<Term>, raw: Seq<char>) -> bool {
    let span = span_after(vstd::utf8::encode_utf8(raw), " all "@);
    &&& e.message@ == "Mechanisms after 'all' found"@
    &&& e.severity == Some(Severity::Warning)
    &&& e.src matches Some(src) && src@ == raw
    &&& e.src_labels matches Some(ls) && ls@.len() == 1 && ls@[0].offset == span.0
        && ls@[0].len == span.1 - span.0 && ls@[0].label@ == "This will be ignored"@
    &&& e.help matches Some(h) && h@ == "Move 'all' to the end."@
}

/// Directives after `all` are never reached.
pub fn check_all_is_rightmost(terms: &[Term], raw_rdata: &str) -> (r: Result<
    (),
    Box<SyntaxError>,
>)
    ensures
        r is Ok <==> !directive_after_all(terms@),
        r matches Err(e) ==> all_rightmost_diagnostic(*e, terms@, raw_rdata@),
{
    let p = first_all(terms);
    if p == terms.len() {
        return Ok(());
    }
    let mut k: usize = p + 1;
    while k < terms.len() && !matches!(terms[k], Term::Directive(_))
        invariant
            p < k <= terms@.len(),
            forall|m: int| p < m < k ==> !is_directive(#[trigger] terms@[m]),
        decreases terms.len() - k,
    {
        k = k + 1;
    }
    if k == terms.len() {
        proof {
            if directive_after_all(terms@) {
                let (i, m) = choose|i: int, m: int|
                    0 <= i < m < terms@.len() && is_all_directive(#[trigger] terms@[i]) && (
                    forall|j: int| 0 <= j < i ==> !is_all_directive(#[trigger] terms@[j]))
                        && is_directive(#[trigger] terms@[m]);
                assert(i == p);
                assert(!is_directive(terms@[m]));
            }
        }
        return Ok(());
    }
    assert(is_directive(terms@[k as int]));
    let hay = raw_rdata.as_bytes();
    let nb = " all ".as_bytes();
    let (offset, end) = match find_bytes_exec(hay, nb) {
        Some(pos) => {
            assert(pos + nb@.len() <= hay@.len());
            let hay_len = hay.len();
            (pos + nb.len(), hay_len)
        },
        None => (0, hay.len()),
    };
    let mut labels: Vec<LabelSpan> = Vec::new();
    labels.push(
        LabelSpan {
            offset,
            len: end - offset,
            label: String::from_str("This will be ignored"),
        },
    );
    Err(
        Box::new(
            SyntaxError {
                message: String::from_str("Mechanisms after 'all' found"),
                severity: Some(Severity::Warning),
                src: Some(String::from_str(raw_rdata)),
                src_labels: Some(labels),
                help: Some(String::from_str("Move 'all' to the end.")),
                code: None,
                code_url: None,
            },
        ),
    )
}

/// The diagnostic that `check_no_redirect_with_all` reports.
pub open spec fn redirect_with_all_diagnostic(e: SyntaxError, terms: Seq<Term>, raw: Seq<char>) -> bool {
    let hay = vstd::utf8::encode_utf8(raw);
    let found = find_bytes(hay, vstd::utf8::encode_utf8(" redirect"@));
    &&& e.message@ == "SPF record contains 'all' directive and 'redirect' modifier"@
    &&& e.severity == Some(Severity::Warning)
    &&& e.src matches Some(src) && src@ == raw
    &&& e.src_labels matches Some(ls) && ls@.len() == 1 && (if found >= 0 {
        ls@[0].offset == found + 1 && ls@[0].len == vstd::utf8::encode_utf8(
            " redirect"@,
        ).len() - 1
    } else {
        ls@[0].offset == 0 && ls@[0].len == hay.len()
    }) && ls@[0].label@
        == "'redirect' modifier is ignored when 'all' directive is present"@
    &&& e.help matches Some(h) && h@ == help_redirect()
}

/// `redirect=` is ignored when an `all` directive is present.
pub fn check_no_redirect_with_all(terms: &[Term], raw_rdata: &str) -> (r: Result<
    (),
    Box<SyntaxError>,
>)
    ensures
        r is Ok <==> !((exists|i: int| 0 <= i < terms@.len() && is_all_directive(#[trigger] terms@[i]))
            && (exists|i: int| 0 <= i < terms@.len() && is_redirect(#[trigger] terms@[i]))),
        r matches Err(e) ==> redirect_with_all_diagnostic(*e, terms@, raw_rdata@),
{
    let a = first_all(terms);
    let d = first_redirect(terms);
    if a == terms.len() || d == terms.len() {
        return Ok(());
    }
    let hay = raw_rdata.as_bytes();
    let nb = " redirect".as_bytes();
    let (offset, len) = match find_bytes_exec(hay, nb) {
        Some(pos) => {
            proof {
                reveal_strlit(" redirect");
                lemma_encode_nonempty(" redirect"@);
            }
            let hay_len = hay.len();
            assert(pos + 1 <= hay_len);
            (pos + 1, nb.len() - 1)
        },
        None => (0, hay.len()),
    };
    let mut labels: Vec<LabelSpan> = Vec::new();
    labels.push(
        LabelSpan {
            offset,
            len,
            label: String::from_str(
                "'redirect' modifier is ignored when 'all' directive is present",
            ),
        },
    );
    Err(
        Box::new(
            SyntaxError {
                message: String::from_str(
                    "SPF record contains 'all' directive and 'redirect' modifier",
                ),
                severity: Some(Severity::Warning),
                src: Some(String::from_str(raw_rdata)),
                src_labels: Some(labels),
                help: Some(
                    String::from_str(
                        "For clarity, any redirect modifier should appear as the very last term in a record.",
                    ),
                ),
                code: None,
                code_url: None,
            },
        ),
    )
}

/// The diagnostic that `check_redirect_is_rightmost` reports.
pub open spec fn redirect_rightmost_diagnostic(e: SyntaxError, terms: Seq<Term>, raw: Seq<char>) -> bool {
    &&& e.message@ == "Redirect modifier not rightmost"@
    &&& e.severity == Some(Severity::Warning)
    &&& e.src is None
    &&& e.src_labels is None
    &&& e.help matches Some(h) && h@ == help_redirect()
}

/// `redirect=`, where present, should be the last term.
pub fn check_redirect_is_rightmost(terms: &[Term], _raw_rdata: &str) -> (r: Result<
    (),
    Box<SyntaxError>,
>)
    ensures
        r is Ok <==> !redirect_not_last(terms@),
        r matches Err(e) ==> redirect_rightmost_diagnostic(*e, terms@, _raw_rdata@),
{
    let d = first_redirect(terms);
    if d == terms.len() || d == terms.len() - 1 {
        proof {
            if redirect_not_last(terms@) {
                let i = choose|i: int|
                    0 <= i < terms@.len() - 1 && is_redirect(#[trigger] terms@[i]) && forall|
                        j: int,
                    | 0 <= j < i ==> !is_redirect(#[trigger] terms@[j]);
                assert(i == d);
            }
        }
        return Ok(());
    }
    Err(
        Box::new(
            SyntaxError {
                message: String::from_str("Redirect modifier not rightmost"),
                severity: Some(Severity::Warning),
                src: None,
                src_labels: None,
                help: Some(
                    String::from_str(
                        "For clarity, any redirect modifier should appear as the very last term in a record.",
                    ),
                ),
                code: None,
                code_url: None,
            },
        ),
    )
}

pub open spec fn capped(n: nat) -> nat {
    if n > usize::MAX {
        usize::MAX as nat
    } else {
        n
    }
}

fn add_capped(a: usize, b: usize) -> (r: usize)
    ensures
        r == capped((a + b) as nat),
{
    if a > usize::MAX - b {
        usize::MAX
    } else {
        a + b
    }
}

/// The lookups of `terms`, counted up to the largest `usize`.
pub fn count_lookup(terms: &[Term]) -> (r: usize)
    ensures
        r == capped(lookups(terms@)),
    decreases terms@,
{
    let mut total: usize = 0;
    let mut i: usize = 0;
    assert(terms@.subrange(0, 0) =~= Seq::<Term>::empty());
    while i < terms.len()
        invariant
            i <= terms@.len(),
            total == capped(lookups(terms@.subrange(0, i as int))),
        decreases terms.len() - i,
    {
        let ghost before = terms@.subrange(0, i as int);
        let ghost upto = terms@.subrange(0, i + 1);
        assert(upto.subrange(0, upto.len() - 1) =~= before);
        assert(upto[upto.len() - 1] == terms@[i as int]);
        let n: usize = match &terms[i] {
            Term::Directive(d) => match &d.mechanism {
                Mechanism::Include(inc) => {
                    proof {
                        assert(decreases_to!(terms@ => terms@[i as int]));
                        assert(decreases_to!(inc.terms => inc.terms@));
                    }
                    let inner = count_lookup(inc.terms.as_slice());
                    add_capped(inner, 1)
                },
                Mechanism::A(_) | Mechanism::Mx(_) | Mechanism::Ptr(_) | Mechanism::Exists(
                    _,
                ) => 1,
                _ => 0,
            },
            Term::Modifier(Modifier::Redirect(_)) => 1,
            _ => 0,
        };
        total = add_capped(total, n);
        i = i + 1;
    }
    assert(terms@.subrange(0, terms@.len() as int) =~= terms@);
    total
}

/// The diagnostic that `check_lookup_count` reports.
pub open spec fn lookup_count_diagnostic(e: SyntaxError, terms: Seq<Term>, raw: Seq<char>) -> bool {
    &&& e.message@ == "Max lookup count of 10 exceeded"@
    &&& e.severity is None
    &&& e.src is None
    &&& e.src_labels is None
    &&& e.help matches Some(h) && h@
        == "Remove the excessive lookups (a, mx, ptr, include or exists) from the SPF record."@
}

/// Evaluating a record may cost at most ten DNS lookups.
pub fn check_lookup_count(terms: &[Term], _raw_rdata: &str) -> (r: Result<
    usize,
    Box<SyntaxError>,
>)
    ensures
        r is Ok <==> lookups(terms@) <= MAX_LOOKUP_COUNT,
        r matches Ok(n) ==> n == lookups(terms@),
        r matches Err(e) ==> lookup_count_diagnostic(*e, terms@, _raw_rdata@),
{
    let n = count_lookup(terms);
    if n <= MAX_LOOKUP_COUNT {
        Ok(n)
    } else {
        Err(
            Box::new(
                SyntaxError {
                    message: String::from_str("Max lookup count of 10 exceeded"),
                    severity: None,
                    src: None,
                    src_labels: None,
                    help: Some(
                        String::from_str(
                            "Remove the excessive lookups (a, mx, ptr, include or exists) from the SPF record.",
                        ),
                    ),
                    code: None,
                    code_url: None,
                },
            ),
        )
    }
}

} // verus!
