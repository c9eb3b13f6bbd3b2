//! GitHub Actions reporter, one workflow command per diagnostic:
//! `::severity file=PATH,line=N,title=RULE::MESSAGE`, with `line=N,`
//! omitted when the line is unknown. `Info` maps to `notice`. The message
//! is encoded by the workflow-command rules: `%` as `%25`, CR as `%0D`,
//! LF as `%0A`.

use vstd::prelude::*;
use crate::date::{decimal, decimal_chars};
use crate::error::push_chars;
use crate::lint::diagnostic::{Diagnostic, DiagnosticView, Severity};
use crate::lint::reporter::{batch_view, Reporter};
use crate::text::{chars_of, string_of};

verus! {

pub open spec fn severity_keyword_spec(s: Severity) -> Seq<char> {
    match s {
        Severity::Info => "notice"@,
        Severity::Warning => "warning"@,
        Severity::Error => "error"@,
    }
}

/// The workflow-command keyword of a severity.
pub fn severity_keyword(s: Severity) -> (r: &'static str)
    ensures
        r@ == severity_keyword_spec(s),
{
    match s {
        Severity::Info => "notice",
        Severity::Warning => "warning",
        Severity::Error => "error",
    }
}

/// The encoding of one message character.
pub open spec fn encode_message_char(c: char) -> Seq<char> {
    if c == '%' {
        "%25"@
    } else if c == '\r' {
        "%0D"@
    } else if c == '\n' {
        "%0A"@
    } else {
        seq![c]
    }
}

/// The encoded message.
pub open spec fn encode_message_spec(s: Seq<char>) -> Seq<char>
    decreases s.len(),
{
    if s.len() == 0 {
        seq![]
    } else {
        encode_message_spec(s.drop_last()) + encode_message_char(s.last())
    }
}

/// The escapes undone, left to right.
pub open spec fn decode_message_spec(s: Seq<char>) -> Seq<char>
    decreases s.len(),
{
    if s.len() == 0 {
        seq![]
    } else if s.len() >= 3 && s[0] == '%' && s[1] == '2' && s[2] == '5' {
        seq!['%'] + decode_message_spec(s.skip(3))
    } else if s.len() >= 3 && s[0] == '%' && s[1] == '0' && s[2] == 'D' {
        seq!['\r'] + decode_message_spec(s.skip(3))
    } else if s.len() >= 3 && s[0] == '%' && s[1] == '0' && s[2] == 'A' {
        seq!['\n'] + decode_message_spec(s.skip(3))
    } else {
        seq![s[0]] + decode_message_spec(s.skip(1))
    }
}

proof fn lemma_encode_message_append(a: Seq<char>, b: Seq<char>)
    ensures
        encode_message_spec(a + b) == encode_message_spec(a) + encode_message_spec(b),
    decreases b.len(),
{
    if b.len() == 0 {
        assert(a + b =~= a);
        assert(encode_message_spec(a) + encode_message_spec(b) =~= encode_message_spec(a));
    } else {
        let c = a + b;
        assert(c.drop_last() =~= a + b.drop_last());
        assert(c.last() == b.last());
        lemma_encode_message_append(a, b.drop_last());
        assert(encode_message_spec(a) + encode_message_spec(b.drop_last()) + encode_message_char(
            b.last(),
        ) =~= encode_message_spec(a) + (encode_message_spec(b.drop_last()) + encode_message_char(
            b.last(),
        )));
    }
}

proof fn lemma_encode_message_first(s: Seq<char>)
    requires
        s.len() > 0,
    ensures
        encode_message_spec(s) == encode_message_char(s[0]) + encode_message_spec(s.skip(1)),
{
    let head = seq![s[0]];
    lemma_encode_message_append(head, s.skip(1));
    assert(head + s.skip(1) =~= s);
    assert(head.drop_last() =~= Seq::<char>::empty());
    assert(head.last() == s[0]);
    assert(encode_message_spec(head.drop_last()) == Seq::<char>::empty());
    assert(Seq::<char>::empty() + encode_message_char(s[0]) =~= encode_message_char(s[0]));
}

proof fn lemma_decode_message_char(c: char, rest: Seq<char>)
    ensures
        decode_message_spec(encode_message_char(c) + rest) == seq![c] + decode_message_spec(rest),
{
    reveal_strlit("%25");
    reveal_strlit("%0D");
    reveal_strlit("%0A");
    let t = encode_message_char(c) + rest;
    if c == '%' || c == '\r' || c == '\n' {
        assert(t.skip(3) =~= rest);
    } else {
        assert(t.skip(1) =~= rest);
    }
}

/// An encoded message holds no line break, and undoing the escapes gives
/// the message back.
pub proof fn lemma_encode_message_round_trip(s: Seq<char>)
    ensures
        forall|i: int|
            0 <= i < encode_message_spec(s).len() ==> #[trigger] encode_message_spec(s)[i] != '\r'
                && encode_message_spec(s)[i] != '\n',
        decode_message_spec(encode_message_spec(s)) == s,
    decreases s.len(),
{
    if s.len() > 0 {
        reveal_strlit("%25");
        reveal_strlit("%0D");
        reveal_strlit("%0A");
        let rest = s.skip(1);
        lemma_encode_message_first(s);
        lemma_encode_message_round_trip(rest);
        lemma_decode_message_char(s[0], encode_message_spec(rest));
        assert(seq![s[0]] + rest =~= s);
        let head = encode_message_char(s[0]);
        let e = encode_message_spec(s);
        assert forall|i: int| 0 <= i < e.len() implies #[trigger] e[i] != '\r' && e[i] != '\n' by {
            if i >= head.len() {
                assert(e[i] == encode_message_spec(rest)[i - head.len()]);
            }
        }
    }
}

fn push_str(out: &mut Vec<char>, s: &str)
    ensures
        final(out)@ == old(out)@ + s@,
{
    push_chars(out, &chars_of(s));
}

/// Apply the workflow-command escape rules to a message.
pub fn encode_message(s: &str) -> (r: String)
    ensures
        r@ == encode_message_spec(s@),
{
    let v = chars_of(s);
    let mut out: Vec<char> = Vec::new();
    let mut i: usize = 0;
    while i < v.len()
        invariant
            i <= v.len(),
            v@ == s@,
            out@ == encode_message_spec(v@.take(i as int)),
        decreases v.len() - i,
    {
        let ghost t = v@.take(i + 1);
        assert(t.drop_last() =~= v@.take(i as int));
        assert(t.last() == v@[i as int]);
        let c = v[i];
        if c == '%' {
            push_str(&mut out, "%25");
        } else if c == '\r' {
            push_str(&mut out, "%0D");
        } else if c == '\n' {
            push_str(&mut out, "%0A");
        } else {
            let ghost before = out@;
            out.push(c);
            assert(out@ =~= before + seq![c]);
        }
        i = i + 1;
    }
    assert(v@.take(i as int) =~= v@);
    string_of(&out)
}

/// One rendered command.
pub open spec fn github_line(path: Seq<char>, d: DiagnosticView) -> Seq<char> {
    let head = "::"@ + severity_keyword_spec(d.severity) + " file="@ + path;
    let tail = ",title="@ + d.rule + "::"@ + encode_message_spec(d.message) + "\n"@;
    match d.line {
        Some(n) => head + ",line="@ + decimal(n as nat) + tail,
        None => head + tail,
    }
}

/// The rendered batch.
pub open spec fn github_text(ds: Seq<(Seq<char>, DiagnosticView)>) -> Seq<char>
    decreases ds.len(),
{
    if ds.len() == 0 {
        seq![]
    } else {
        github_text(ds.drop_last()) + github_line(ds.last().0, ds.last().1)
    }
}

pub struct GithubReporter;

impl Reporter for GithubReporter {
    fn render(&self, diagnostics: &[(String, Diagnostic)]) -> (r: String)
        ensures
            r@ == github_text(batch_view(diagnostics@)),
    {
        let ghost bv = batch_view(diagnostics@);
        let mut out: Vec<char> = Vec::new();
        let mut i: usize = 0;
        while i < diagnostics.len()
            invariant
                i <= diagnostics.len(),
                bv == batch_view(diagnostics@),
                out@ == github_text(bv.take(i as int)),
            decreases diagnostics.len() - i,
        {
            let ghost t = bv.take(i + 1);
            assert(t.drop_last() =~= bv.take(i as int));
            assert(t.last() == (diagnostics@[i as int].0@, diagnostics@[i as int].1@));
            let (path, diag) = (&diagnostics[i].0, &diagnostics[i].1);
            push_str(&mut out, "::");
            push_str(&mut out, severity_keyword(diag.severity));
            push_str(&mut out, " file=");
            push_str(&mut out, path.as_str());
            match diag.line {
                Some(n) => {
                    push_str(&mut out, ",line=");
                    push_chars(&mut out, &decimal_chars(n as u64));
                },
                None => {},
            }
            push_str(&mut out, ",title=");
            push_str(&mut out, diag.rule);
            push_str(&mut out, "::");
            push_str(&mut out, encode_message(diag.message.as_str()).as_str());
            push_str(&mut out, "\n");
            i = i + 1;
        }
        assert(bv.take(i as int) =~= bv);
        string_of(&out)
    }
}

} // verus!
